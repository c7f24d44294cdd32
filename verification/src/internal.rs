pub mod bus;
pub mod bytebuf;
pub mod clock;
pub mod conn;
pub mod packet;
