//! A work-queue broker speaking the beanstalkd protocol: its command parser,
//! response encoder, line framer and job scheduler.

pub mod dispatch;
pub mod framer;
pub mod parser;
pub mod protocol;
pub mod serialisable;
pub mod store;
pub mod util;
pub mod wire;
