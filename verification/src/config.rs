//! The configuration of the shop: where its tables live.

use crate::sheet::SheetArgs;
use vstd::prelude::*;

verus! {

/// How to reach the chat service.
pub struct TelegramConfig {
    pub bot_token: String,
}

/// The spreadsheet, the time-to-live of version checks in seconds, and the
/// regions of every table.
pub struct SheetsConfig {
    pub spreadsheet_id: String,
    pub clock_ttl: usize,
    pub meta: SheetArgs,
    pub items: SheetArgs,
    pub products: SheetArgs,
    pub users: SheetArgs,
    pub users_meta: SheetArgs,
    pub merchants: SheetArgs,
    pub sales: SheetArgs,
    pub orders: SheetArgs,
    pub replenishments: SheetArgs,
    pub writeoffs: SheetArgs,
    pub localization: SheetArgs,
}

/// The whole configuration.
pub struct Config {
    pub telegram: TelegramConfig,
    pub sheets: SheetsConfig,
}

} // verus!
