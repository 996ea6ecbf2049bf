//! The core of a disk-oriented storage engine: a buffer pool of fixed size
//! over a file of pages, and a table heap of slotted pages on top of it.
//!
//! The library does no I/O. An operation that needs a page from the file
//! takes the bytes that were read there, and an operation that changes the
//! file adds the writes to a list, which its caller carries out in order.
//!
//! - `typedef`, `error`, `record_id`, `tuple`: the vocabulary.
//! - `codec`: numbers as bytes, low byte first.
//! - `frame`, `page`: one page in memory.
//! - `table_page`: the slotted layout of a table page.
//! - `disk_manager`: where pages lie in the file, and what reads mean.
//! - `replacer`, `lru_replacer`, `lru_k_replacer`: which frame to evict.
//! - `pool_model`: the buffer pool as a mathematical value, with its laws.
//! - `buffer_pool`, `frame_handle`: the buffer pool and the pins it hands out.
//! - `table_heap`, `table_iterator`, `table_page_iterator`,
//!   `table_tuple_iterator`, `table_tuple_ref_iterator`: tables and walks
//!   over them.

pub mod buffer_pool;
pub mod codec;
pub mod disk_manager;
pub mod error;
pub mod frame;
pub mod frame_handle;
pub mod lru_k_replacer;
pub mod lru_replacer;
pub mod page;
pub mod pool_model;
pub mod record_id;
pub mod replacer;
pub mod table_heap;
pub mod table_iterator;
pub mod table_page;
pub mod table_page_iterator;
pub mod table_tuple_iterator;
pub mod table_tuple_ref_iterator;
pub mod tuple;
pub mod typedef;
