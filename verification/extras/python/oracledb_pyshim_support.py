"""What the extension module asks of Python: objects of the oracledb package,
and the coroutines that await its cursors."""

import array
import datetime
import decimal
import inspect

import oracledb
from oracledb import errors, exceptions
from oracledb.enums import PipelineOpType
from oracledb.subscr import Message, MessageQuery, MessageRow, MessageTable


def raised(name, /, **arguments):
    """The exception that the package raises for an entry of its catalogue."""
    try:
        errors._raise_err(getattr(errors, name), **arguments)
    except Exception as exc:
        return exc
    return RuntimeError(f"oracledb.errors._raise_err({name}) returned without raising")


def not_supported(feature):
    try:
        errors._raise_not_supported(feature)
    except Exception as exc:
        return exc
    return RuntimeError("oracledb.errors._raise_not_supported returned without raising")


def database_error(message, code, offset):
    """The exception for a database error, and whether it ended the session."""
    arguments = {"message": message, "code": code, "offset": offset}
    error = errors._Error(**{k: v for k, v in arguments.items() if v is not None})
    return error.exc_type(error), error.is_session_dead


def batch_errors(parts):
    made = []
    for message, code, offset in parts:
        arguments = {"message": message} if message else {}
        made.append(errors._Error(code=code, offset=offset, **arguments))
    return made


def describe(value):
    """The parts of an interval and of a time delta, and whether the value is a
    vector or a decimal."""
    interval = delta = None
    if isinstance(value, oracledb.IntervalYM):
        interval = (value.years, value.months)
    if isinstance(value, datetime.timedelta):
        delta = (value.days, value.seconds, value.microseconds)
    is_vector = isinstance(value, (array.array, oracledb.SparseVector))
    return interval, delta, is_vector, isinstance(value, decimal.Decimal)


def date_of(days):
    return datetime.date(1970, 1, 1) + datetime.timedelta(days)


def datetime_of(microseconds):
    return datetime.datetime(1970, 1, 1) + datetime.timedelta(microseconds=microseconds)


def parameter_count(function):
    try:
        return len(inspect.signature(function).parameters)
    except (TypeError, ValueError):
        return None


class HandlerCursor:
    """What a type handler is given as its cursor."""

    var = oracledb.Cursor.var

    def __init__(self, connection, arraysize, factory):
        self.connection = connection
        self.arraysize = arraysize
        self._impl = factory

    def _verify_open(self):
        pass


class ImmediateAwaitable:
    """An awaitable that has its value already."""

    def __init__(self, value):
        self.value = value

    def __await__(self):
        return self

    def __iter__(self):
        return self

    def __next__(self):
        raise StopIteration(self.value)


def _tables(tables):
    made = []
    for operation, name, rows in tables:
        table = MessageTable()
        table._operation, table._name, table._rows = operation, name, []
        for row_operation, rowid in rows:
            row = MessageRow()
            row._operation, row._rowid = row_operation, rowid
            table._rows.append(row)
        made.append(table)
    return made


def deliver_message(subscription, parts, tables, queries):
    """Hands a notification to the callback of a subscription; says whether it
    has one."""
    if subscription.callback is None:
        return False
    message = Message(subscription)
    (
        message._type,
        message._registered,
        dbname,
        message._txid,
        message._queue_name,
        message._consumer_name,
        message._msgid,
    ) = parts
    if dbname is not None:
        message._dbname = dbname
    message._tables = _tables(tables)
    message._queries = []
    for query_id, operation, query_tables in queries:
        query = MessageQuery()
        query._id, query._operation = query_id, operation
        query._tables = _tables(query_tables)
        message._queries.append(query)
    subscription.callback(message)
    return True


class PipelineOpResultImpl:
    """The result of an operation, with attributes that can be assigned."""

    def __init__(self, operation):
        self.operation = operation
        self.return_value = None
        self.rows = None
        self.error = None
        self.warning = None
        self.fetch_metadata = None

    def capture(self, exc):
        if isinstance(exc, exceptions.Error):
            self.error = exc.args[0]
        else:
            self.error = errors._create_err(
                errors.ERR_UNEXPECTED_PIPELINE_FAILURE, cause=exc
            )

    def finish(self, cursor):
        self.warning = cursor.warning
        self.fetch_metadata = cursor._impl.fetch_metadata or None


def _own_results(results):
    for result in results:
        if not isinstance(result._impl, PipelineOpResultImpl):
            result._impl = PipelineOpResultImpl(result._impl.operation)


async def _fetch(result, cursor, count):
    if result.operation.op_type == PipelineOpType.FETCH_ALL:
        result.rows = await cursor.fetchall()
    else:
        result.rows = await cursor.fetchmany(count)


async def _run_op(conn, result, count):
    op = result.operation
    if op.op_type == PipelineOpType.COMMIT:
        await conn.commit()
        return
    cursor = conn.cursor()
    if op.op_type == PipelineOpType.CALL_FUNC:
        result.return_value = await cursor.callfunc(
            op.name, op.return_type, op.parameters, op.keyword_parameters
        )
    elif op.op_type == PipelineOpType.CALL_PROC:
        await cursor.callproc(op.name, op.parameters, op.keyword_parameters)
    elif op.op_type == PipelineOpType.EXECUTE:
        await cursor.execute(op.statement, op.parameters)
    elif op.op_type == PipelineOpType.EXECUTE_MANY:
        await cursor.executemany(op.statement, op.parameters)
    elif count is not None:
        cursor._impl.prefetchrows = cursor._impl.arraysize = count
        await cursor.execute(
            op.statement,
            op.parameters,
            fetch_lobs=op.fetch_lobs,
            fetch_decimals=op.fetch_decimals,
        )
        cursor.rowfactory = op.rowfactory
        await _fetch(result, cursor, count)
    else:
        errors._raise_err(
            errors.ERR_UNSUPPORTED_PIPELINE_OPERATION, op_type=op.op_type
        )
    result.finish(cursor)


async def run_sequential(conn, results, counts, captures):
    """Runs the operations of a pipeline one after the other."""
    _own_results(results)
    call_timeout = conn._impl.get_call_timeout()
    try:
        for result, count in zip(results, counts):
            try:
                await _run_op(conn, result._impl, count)
            except Exception as exc:
                if not captures:
                    raise
                result._impl.capture(exc)
    finally:
        conn._impl.set_call_timeout(call_timeout)


def _set_fetch(impl, op, count):
    impl.prefetchrows = impl.arraysize = count
    impl.fetch_lobs = op.fetch_lobs
    impl.fetch_decimals = op.fetch_decimals


def _prepare(conn, op, count):
    if op.op_type == PipelineOpType.COMMIT:
        return None
    cursor = conn.cursor()
    impl = cursor._impl
    if op.op_type == PipelineOpType.EXECUTE:
        cursor._prepare_for_execute(op.statement, op.parameters)
    elif op.op_type == PipelineOpType.EXECUTE_MANY:
        impl._prepare_for_executemany(cursor, op.statement, op.parameters, 2**32 - 1)
    else:
        _set_fetch(impl, op, count)
        cursor._prepare_for_execute(op.statement, op.parameters)
        _set_fetch(impl, op, count)
        cursor.rowfactory = op.rowfactory
    return cursor


async def run_native(conn, results, counts, captures):
    """Runs the operations of a pipeline in one round trip."""
    _own_results(results)
    call_timeout = conn._impl.get_call_timeout()
    try:
        cursors = [
            _prepare(conn, result._impl.operation, count)
            for result, count in zip(results, counts)
        ]
        op_errors = await conn._impl._pipeline_native_execute(cursors, captures)
        for result, cursor, count, error in zip(results, cursors, counts, op_errors):
            try:
                if error is not None:
                    raise error
                if cursor is not None:
                    if count is not None:
                        await _fetch(result._impl, cursor, count)
                    result._impl.finish(cursor)
            except Exception as exc:
                if not captures:
                    raise
                result._impl.capture(exc)
        conn._impl._pipeline_close_cursors(cursors)
    finally:
        conn._impl.set_call_timeout(call_timeout)
