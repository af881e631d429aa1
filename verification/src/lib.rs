//! Accounting core of an auction marketplace: a registry of active sales,
//! secondary indexes by owner and by source collection, and a prepaid
//! storage quota that gates how many concurrent listings an account may hold.

pub mod assoc_map;
pub mod errors;
pub mod ids;
pub mod laws;
pub mod market;
pub mod sale;
pub mod sale_index;
pub mod storage_ledger;
pub mod string_set;
