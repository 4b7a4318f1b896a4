//! Keeps a monitoring daemon's host file in step with a set of endpoint
//! monitor records: the rendering of records into configuration lines, the
//! parsing of the daemon's process id, and the debounced reconciliation loop
//! as a state machine.

pub mod record;
pub mod render;
pub mod pid;
pub mod reconcile;
