//! The decisions of an Oracle Database driver for Python: which values a statement binds and what
//! they become on the wire, what a fetched row turns into, what a cursor, a LOB, an object, a pool
//! or a pipeline does next, and which error is raised.
//!
//! Nothing here touches the network or the interpreter. A Python value comes in as the facets that
//! the driver looks at, and goes by its handle from there on; an answer of the server comes in as
//! plain data. What has to be done outside is handed back as a plan or a step.

pub mod aq;
pub mod arrow;
pub mod batch;
pub mod binds;
pub mod buffer;
pub mod catalog;
pub mod catalogue;
pub mod columns;
pub mod cursor;
pub mod dbobject;
pub mod decimal;
pub mod dictionary;
pub mod errors;
pub mod execute;
pub mod fetch;
pub mod hooks;
pub mod indexed;
pub mod iterate;
pub mod lob;
pub mod lobbinds;
pub mod objsql;
pub mod objtype;
pub mod pipeline;
pub mod pool;
pub mod prepare;
pub mod pyvalue;
pub mod session;
pub mod slots;
pub mod soda;
pub mod sqltext;
pub mod subscr;
pub mod task;
pub mod text;
pub mod textmap;
pub mod typehandler;
pub mod value;
