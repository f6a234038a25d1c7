//! Memory types: addresses, page operations, logical address spaces, layout constants.

pub mod addr;
pub mod address_space;
pub mod layout;
pub mod paging;
