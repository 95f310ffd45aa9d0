//! Vendor lookup by OUI (the first three bytes of a MAC address) and
//! detection of locally administered (randomised) addresses.
use vstd::prelude::*;
use crate::text::{ascii_upper, hex_char_value, hex_value, is_upper_hex, upper_char};

verus! {

/// Manufacturers in the OUI table.
#[derive(Clone, Copy, Debug, PartialEq, Eq)]
pub enum Vendor {
    Apple,
    Samsung,
    Google,
    Intel,
    Microsoft,
    Huawei,
    Xiaomi,
    OnePlus,
    Amazon,
    Espressif,
    RaspberryPi,
    TpLink,
    Sony,
    Lg,
}

pub open spec fn vendor_label(v: Vendor) -> &'static str {
    match v {
        Vendor::Apple => "Apple",
        Vendor::Samsung => "Samsung",
        Vendor::Google => "Google",
        Vendor::Intel => "Intel",
        Vendor::Microsoft => "Microsoft",
        Vendor::Huawei => "Huawei",
        Vendor::Xiaomi => "Xiaomi",
        Vendor::OnePlus => "OnePlus",
        Vendor::Amazon => "Amazon",
        Vendor::Espressif => "Espressif",
        Vendor::RaspberryPi => "Raspberry Pi",
        Vendor::TpLink => "TP-Link",
        Vendor::Sony => "Sony",
        Vendor::Lg => "LG",
    }
}

/// Short display code of a vendor.
pub open spec fn vendor_code(v: Vendor) -> &'static str {
    match v {
        Vendor::Apple => "AAPL",
        Vendor::Samsung => "SMSN",
        Vendor::Google => "GOOG",
        Vendor::Intel => "INTL",
        Vendor::Microsoft => "MSFT",
        Vendor::Huawei => "HWAI",
        Vendor::Xiaomi => "XIAO",
        Vendor::OnePlus => "1+",
        Vendor::Amazon => "AMZN",
        Vendor::Espressif => "ESP",
        Vendor::RaspberryPi => "RPI",
        Vendor::TpLink => "TPLK",
        Vendor::Sony => "SONY",
        Vendor::Lg => "LG",
    }
}

impl Vendor {
    pub fn label(&self) -> (r: &'static str)
        ensures
            r == vendor_label(*self),
    {
        match self {
            Vendor::Apple => "Apple",
            Vendor::Samsung => "Samsung",
            Vendor::Google => "Google",
            Vendor::Intel => "Intel",
            Vendor::Microsoft => "Microsoft",
            Vendor::Huawei => "Huawei",
            Vendor::Xiaomi => "Xiaomi",
            Vendor::OnePlus => "OnePlus",
            Vendor::Amazon => "Amazon",
            Vendor::Espressif => "Espressif",
            Vendor::RaspberryPi => "Raspberry Pi",
            Vendor::TpLink => "TP-Link",
            Vendor::Sony => "Sony",
            Vendor::Lg => "LG",
        }
    }

    pub fn code(&self) -> (r: &'static str)
        ensures
            r == vendor_code(*self),
    {
        match self {
            Vendor::Apple => "AAPL",
            Vendor::Samsung => "SMSN",
            Vendor::Google => "GOOG",
            Vendor::Intel => "INTL",
            Vendor::Microsoft => "MSFT",
            Vendor::Huawei => "HWAI",
            Vendor::Xiaomi => "XIAO",
            Vendor::OnePlus => "1+",
            Vendor::Amazon => "AMZN",
            Vendor::Espressif => "ESP",
            Vendor::RaspberryPi => "RPI",
            Vendor::TpLink => "TPLK",
            Vendor::Sony => "SONY",
            Vendor::Lg => "LG",
        }
    }
}

/// The vendor registered for an OUI, given as a 24-bit number.
pub open spec fn oui_vendor(key: u32) -> Option<Vendor> {
    match key {
        0x000393 => Some(Vendor::Apple),
        0x000A27 => Some(Vendor::Apple),
        0x000A95 => Some(Vendor::Apple),
        0x000D93 => Some(Vendor::Apple),
        0x0010FA => Some(Vendor::Apple),
        0x001124 => Some(Vendor::Apple),
        0x001451 => Some(Vendor::Apple),
        0x0016CB => Some(Vendor::Apple),
        0x0017F2 => Some(Vendor::Apple),
        0x0019E3 => Some(Vendor::Apple),
        0x001B63 => Some(Vendor::Apple),
        0x001CB3 => Some(Vendor::Apple),
        0x001D4F => Some(Vendor::Apple),
        0x001E52 => Some(Vendor::Apple),
        0x001EC2 => Some(Vendor::Apple),
        0x001F5B => Some(Vendor::Apple),
        0x001FF3 => Some(Vendor::Apple),
        0x0021E9 => Some(Vendor::Apple),
        0x002241 => Some(Vendor::Apple),
        0x002312 => Some(Vendor::Apple),
        0x002332 => Some(Vendor::Apple),
        0x00236C => Some(Vendor::Apple),
        0x0023DF => Some(Vendor::Apple),
        0x002436 => Some(Vendor::Apple),
        0x002500 => Some(Vendor::Apple),
        0x00254B => Some(Vendor::Apple),
        0x0025BC => Some(Vendor::Apple),
        0x002608 => Some(Vendor::Apple),
        0x00264A => Some(Vendor::Apple),
        0x0026B0 => Some(Vendor::Apple),
        0x0026BB => Some(Vendor::Apple),
        0x003065 => Some(Vendor::Apple),
        0x003EE1 => Some(Vendor::Apple),
        0x0050E4 => Some(Vendor::Apple),
        0x0056CD => Some(Vendor::Apple),
        0x006171 => Some(Vendor::Apple),
        0x006D52 => Some(Vendor::Apple),
        0x008865 => Some(Vendor::Apple),
        0x00B362 => Some(Vendor::Apple),
        0x00C610 => Some(Vendor::Apple),
        0x00CDFE => Some(Vendor::Apple),
        0x00DB70 => Some(Vendor::Apple),
        0x00F4B9 => Some(Vendor::Apple),
        0x00F76F => Some(Vendor::Apple),
        0x040CCE => Some(Vendor::Apple),
        0x041552 => Some(Vendor::Apple),
        0x042665 => Some(Vendor::Apple),
        0x04489A => Some(Vendor::Apple),
        0x044BED => Some(Vendor::Apple),
        0x0452F3 => Some(Vendor::Apple),
        0x045453 => Some(Vendor::Apple),
        0x0469F8 => Some(Vendor::Apple),
        0x04D3CF => Some(Vendor::Apple),
        0x04DB56 => Some(Vendor::Apple),
        0x04E536 => Some(Vendor::Apple),
        0x04F13E => Some(Vendor::Apple),
        0x04F7E4 => Some(Vendor::Apple),
        0x0000F0 => Some(Vendor::Samsung),
        0x000278 => Some(Vendor::Samsung),
        0x0007AB => Some(Vendor::Samsung),
        0x000918 => Some(Vendor::Samsung),
        0x000DAE => Some(Vendor::Samsung),
        0x000DE5 => Some(Vendor::Samsung),
        0x001247 => Some(Vendor::Samsung),
        0x0012FB => Some(Vendor::Samsung),
        0x001377 => Some(Vendor::Samsung),
        0x001599 => Some(Vendor::Samsung),
        0x0015B9 => Some(Vendor::Samsung),
        0x001632 => Some(Vendor::Samsung),
        0x00166B => Some(Vendor::Samsung),
        0x00166C => Some(Vendor::Samsung),
        0x0016DB => Some(Vendor::Samsung),
        0x0017C9 => Some(Vendor::Samsung),
        0x0017D5 => Some(Vendor::Samsung),
        0x0018AF => Some(Vendor::Samsung),
        0x001A8A => Some(Vendor::Samsung),
        0x001B98 => Some(Vendor::Samsung),
        0x001C43 => Some(Vendor::Samsung),
        0x001D25 => Some(Vendor::Samsung),
        0x001DF6 => Some(Vendor::Samsung),
        0x001E7D => Some(Vendor::Samsung),
        0x001FCC => Some(Vendor::Samsung),
        0x001FCD => Some(Vendor::Samsung),
        0x002119 => Some(Vendor::Samsung),
        0x00214C => Some(Vendor::Samsung),
        0x0021D1 => Some(Vendor::Samsung),
        0x0021D2 => Some(Vendor::Samsung),
        0x002339 => Some(Vendor::Samsung),
        0x00233A => Some(Vendor::Samsung),
        0x002399 => Some(Vendor::Samsung),
        0x0023D6 => Some(Vendor::Samsung),
        0x0023D7 => Some(Vendor::Samsung),
        0x002454 => Some(Vendor::Samsung),
        0x002490 => Some(Vendor::Samsung),
        0x002491 => Some(Vendor::Samsung),
        0x002566 => Some(Vendor::Samsung),
        0x002567 => Some(Vendor::Samsung),
        0x002637 => Some(Vendor::Samsung),
        0x00265D => Some(Vendor::Samsung),
        0x00265F => Some(Vendor::Samsung),
        0x001A11 => Some(Vendor::Google),
        0x3C5AB4 => Some(Vendor::Google),
        0x546009 => Some(Vendor::Google),
        0x94EB2C => Some(Vendor::Google),
        0xA47733 => Some(Vendor::Google),
        0xF4F5D8 => Some(Vendor::Google),
        0xF4F5E8 => Some(Vendor::Google),
        0x0002B3 => Some(Vendor::Intel),
        0x000347 => Some(Vendor::Intel),
        0x000423 => Some(Vendor::Intel),
        0x0007E9 => Some(Vendor::Intel),
        0x000CF1 => Some(Vendor::Intel),
        0x000E0C => Some(Vendor::Intel),
        0x000E35 => Some(Vendor::Intel),
        0x001111 => Some(Vendor::Intel),
        0x0012F0 => Some(Vendor::Intel),
        0x001302 => Some(Vendor::Intel),
        0x001320 => Some(Vendor::Intel),
        0x0013CE => Some(Vendor::Intel),
        0x0013E8 => Some(Vendor::Intel),
        0x001500 => Some(Vendor::Intel),
        0x001517 => Some(Vendor::Intel),
        0x00166F => Some(Vendor::Intel),
        0x001676 => Some(Vendor::Intel),
        0x0016EA => Some(Vendor::Intel),
        0x0016EB => Some(Vendor::Intel),
        0x0018DE => Some(Vendor::Intel),
        0x0019D1 => Some(Vendor::Intel),
        0x0019D2 => Some(Vendor::Intel),
        0x001B21 => Some(Vendor::Intel),
        0x001B77 => Some(Vendor::Intel),
        0x001CBF => Some(Vendor::Intel),
        0x001CC0 => Some(Vendor::Intel),
        0x001DE0 => Some(Vendor::Intel),
        0x001DE1 => Some(Vendor::Intel),
        0x001E64 => Some(Vendor::Intel),
        0x001E65 => Some(Vendor::Intel),
        0x001E67 => Some(Vendor::Intel),
        0x001F3B => Some(Vendor::Intel),
        0x001F3C => Some(Vendor::Intel),
        0x0020E0 => Some(Vendor::Intel),
        0x00215C => Some(Vendor::Intel),
        0x00215D => Some(Vendor::Intel),
        0x00216A => Some(Vendor::Intel),
        0x00216B => Some(Vendor::Intel),
        0x0022FA => Some(Vendor::Intel),
        0x0022FB => Some(Vendor::Intel),
        0x002314 => Some(Vendor::Intel),
        0x002315 => Some(Vendor::Intel),
        0x0024D6 => Some(Vendor::Intel),
        0x0024D7 => Some(Vendor::Intel),
        0x0026C6 => Some(Vendor::Intel),
        0x0026C7 => Some(Vendor::Intel),
        0x002710 => Some(Vendor::Intel),
        0x000D3A => Some(Vendor::Microsoft),
        0x00125A => Some(Vendor::Microsoft),
        0x00155D => Some(Vendor::Microsoft),
        0x0017FA => Some(Vendor::Microsoft),
        0x001DD8 => Some(Vendor::Microsoft),
        0x002248 => Some(Vendor::Microsoft),
        0x0025AE => Some(Vendor::Microsoft),
        0x0050F2 => Some(Vendor::Microsoft),
        0x281878 => Some(Vendor::Microsoft),
        0x3059B7 => Some(Vendor::Microsoft),
        0x501AC5 => Some(Vendor::Microsoft),
        0x5882A8 => Some(Vendor::Microsoft),
        0x6045BD => Some(Vendor::Microsoft),
        0x7C1E52 => Some(Vendor::Microsoft),
        0x7CED8D => Some(Vendor::Microsoft),
        0x001882 => Some(Vendor::Huawei),
        0x001E10 => Some(Vendor::Huawei),
        0x0022A1 => Some(Vendor::Huawei),
        0x002568 => Some(Vendor::Huawei),
        0x00259E => Some(Vendor::Huawei),
        0x0034FE => Some(Vendor::Huawei),
        0x00464B => Some(Vendor::Huawei),
        0x005A13 => Some(Vendor::Huawei),
        0x00664B => Some(Vendor::Huawei),
        0x009ACD => Some(Vendor::Huawei),
        0x00E0FC => Some(Vendor::Huawei),
        0x00F81C => Some(Vendor::Huawei),
        0x009EC8 => Some(Vendor::Xiaomi),
        0x04CF8C => Some(Vendor::Xiaomi),
        0x0C1DAF => Some(Vendor::Xiaomi),
        0x102AB3 => Some(Vendor::Xiaomi),
        0x14F65A => Some(Vendor::Xiaomi),
        0x185936 => Some(Vendor::Xiaomi),
        0x2034FB => Some(Vendor::Xiaomi),
        0x286C07 => Some(Vendor::Xiaomi),
        0x3480B3 => Some(Vendor::Xiaomi),
        0x38A4ED => Some(Vendor::Xiaomi),
        0x3CBD3E => Some(Vendor::Xiaomi),
        0x44237C => Some(Vendor::Xiaomi),
        0x508F4C => Some(Vendor::Xiaomi),
        0x584498 => Some(Vendor::Xiaomi),
        0x640980 => Some(Vendor::Xiaomi),
        0x64B473 => Some(Vendor::Xiaomi),
        0x68DFDD => Some(Vendor::Xiaomi),
        0x742344 => Some(Vendor::Xiaomi),
        0x7802F8 => Some(Vendor::Xiaomi),
        0x7811DC => Some(Vendor::Xiaomi),
        0x001B52 => Some(Vendor::OnePlus),
        0x64A2F9 => Some(Vendor::OnePlus),
        0x94652D => Some(Vendor::OnePlus),
        0xC0EEFB => Some(Vendor::OnePlus),
        0x00FC8B => Some(Vendor::Amazon),
        0x0C47C9 => Some(Vendor::Amazon),
        0x10AE60 => Some(Vendor::Amazon),
        0x18742E => Some(Vendor::Amazon),
        0x34D270 => Some(Vendor::Amazon),
        0x40B4CD => Some(Vendor::Amazon),
        0x44650D => Some(Vendor::Amazon),
        0x50DCE7 => Some(Vendor::Amazon),
        0x6837E9 => Some(Vendor::Amazon),
        0x6854FD => Some(Vendor::Amazon),
        0x74C246 => Some(Vendor::Amazon),
        0x84D6D0 => Some(Vendor::Amazon),
        0xA002DC => Some(Vendor::Amazon),
        0xAC63BE => Some(Vendor::Amazon),
        0xB47C9C => Some(Vendor::Amazon),
        0xF0272D => Some(Vendor::Amazon),
        0xFCA183 => Some(Vendor::Amazon),
        0x18FE34 => Some(Vendor::Espressif),
        0x240AC4 => Some(Vendor::Espressif),
        0x2462AB => Some(Vendor::Espressif),
        0x246F28 => Some(Vendor::Espressif),
        0x24B2DE => Some(Vendor::Espressif),
        0x2C3AE8 => Some(Vendor::Espressif),
        0x30AEA4 => Some(Vendor::Espressif),
        0x3C6105 => Some(Vendor::Espressif),
        0x3C71BF => Some(Vendor::Espressif),
        0x483FDA => Some(Vendor::Espressif),
        0x4C11AE => Some(Vendor::Espressif),
        0x5CCF7F => Some(Vendor::Espressif),
        0x600194 => Some(Vendor::Espressif),
        0x68C63A => Some(Vendor::Espressif),
        0x840D8E => Some(Vendor::Espressif),
        0x84CCA8 => Some(Vendor::Espressif),
        0x84F3EB => Some(Vendor::Espressif),
        0xA020A6 => Some(Vendor::Espressif),
        0xA47B9D => Some(Vendor::Espressif),
        0xA4CF12 => Some(Vendor::Espressif),
        0xACD074 => Some(Vendor::Espressif),
        0xB4E62D => Some(Vendor::Espressif),
        0xBCDDC2 => Some(Vendor::Espressif),
        0xC44F33 => Some(Vendor::Espressif),
        0xC82B96 => Some(Vendor::Espressif),
        0xCC50E3 => Some(Vendor::Espressif),
        0xD8A01D => Some(Vendor::Espressif),
        0xDC4F22 => Some(Vendor::Espressif),
        0xECFABC => Some(Vendor::Espressif),
        0xB827EB => Some(Vendor::RaspberryPi),
        0xDCA632 => Some(Vendor::RaspberryPi),
        0xE45F01 => Some(Vendor::RaspberryPi),
        0x001D0F => Some(Vendor::TpLink),
        0x002719 => Some(Vendor::TpLink),
        0x14CC20 => Some(Vendor::TpLink),
        0x14CF92 => Some(Vendor::TpLink),
        0x18A6F7 => Some(Vendor::TpLink),
        0x1C3BF3 => Some(Vendor::TpLink),
        0x30B5C2 => Some(Vendor::TpLink),
        0x50C7BF => Some(Vendor::TpLink),
        0x54C80F => Some(Vendor::TpLink),
        0x5C899A => Some(Vendor::TpLink),
        0x60E327 => Some(Vendor::TpLink),
        0x645601 => Some(Vendor::TpLink),
        0x647002 => Some(Vendor::TpLink),
        0x6CB0CE => Some(Vendor::TpLink),
        0x784476 => Some(Vendor::TpLink),
        0x90F652 => Some(Vendor::TpLink),
        0x94D9B3 => Some(Vendor::TpLink),
        0x98DAC4 => Some(Vendor::TpLink),
        0xA0F3C1 => Some(Vendor::TpLink),
        0xAC84C6 => Some(Vendor::TpLink),
        0xB04E26 => Some(Vendor::TpLink),
        0xB09575 => Some(Vendor::TpLink),
        0xC025E9 => Some(Vendor::TpLink),
        0xC46E1F => Some(Vendor::TpLink),
        0xC83A35 => Some(Vendor::TpLink),
        0xD46E0E => Some(Vendor::TpLink),
        0xD807B6 => Some(Vendor::TpLink),
        0xE894F6 => Some(Vendor::TpLink),
        0xEC086B => Some(Vendor::TpLink),
        0xEC172F => Some(Vendor::TpLink),
        0xF4F26D => Some(Vendor::TpLink),
        0x00014A => Some(Vendor::Sony),
        0x00041F => Some(Vendor::Sony),
        0x0013A9 => Some(Vendor::Sony),
        0x0015C1 => Some(Vendor::Sony),
        0x001963 => Some(Vendor::Sony),
        0x001A80 => Some(Vendor::Sony),
        0x001DBA => Some(Vendor::Sony),
        0x001EA4 => Some(Vendor::Sony),
        0x00219E => Some(Vendor::Sony),
        0x002345 => Some(Vendor::Sony),
        0x0024BE => Some(Vendor::Sony),
        0x00EB2D => Some(Vendor::Sony),
        0x045D4B => Some(Vendor::Sony),
        0x04766E => Some(Vendor::Sony),
        0x104FA8 => Some(Vendor::Sony),
        0x2421AB => Some(Vendor::Sony),
        0x280DFC => Some(Vendor::Sony),
        0x3017C8 => Some(Vendor::Sony),
        0x30A9DE => Some(Vendor::Sony),
        0x001C62 => Some(Vendor::Lg),
        0x001E75 => Some(Vendor::Lg),
        0x001F6B => Some(Vendor::Lg),
        0x001FE3 => Some(Vendor::Lg),
        0x0022A9 => Some(Vendor::Lg),
        0x0025E5 => Some(Vendor::Lg),
        0x0026E2 => Some(Vendor::Lg),
        0x0034DA => Some(Vendor::Lg),
        0x00AA70 => Some(Vendor::Lg),
        0x00E091 => Some(Vendor::Lg),
        0x043389 => Some(Vendor::Lg),
        0x08D42B => Some(Vendor::Lg),
        0x10683F => Some(Vendor::Lg),
        0x10F96F => Some(Vendor::Lg),
        0x14C913 => Some(Vendor::Lg),
        0x1CBCD0 => Some(Vendor::Lg),
        0x2021A5 => Some(Vendor::Lg),
        0x283F69 => Some(Vendor::Lg),
        _ => None,
    }
}

/// The vendor registered for an OUI, given as a 24-bit number.
pub fn oui_vendor_of(key: u32) -> (r: Option<Vendor>)
    ensures
        r == oui_vendor(key),
{
    match key {
        0x000393 => Some(Vendor::Apple),
        0x000A27 => Some(Vendor::Apple),
        0x000A95 => Some(Vendor::Apple),
        0x000D93 => Some(Vendor::Apple),
        0x0010FA => Some(Vendor::Apple),
        0x001124 => Some(Vendor::Apple),
        0x001451 => Some(Vendor::Apple),
        0x0016CB => Some(Vendor::Apple),
        0x0017F2 => Some(Vendor::Apple),
        0x0019E3 => Some(Vendor::Apple),
        0x001B63 => Some(Vendor::Apple),
        0x001CB3 => Some(Vendor::Apple),
        0x001D4F => Some(Vendor::Apple),
        0x001E52 => Some(Vendor::Apple),
        0x001EC2 => Some(Vendor::Apple),
        0x001F5B => Some(Vendor::Apple),
        0x001FF3 => Some(Vendor::Apple),
        0x0021E9 => Some(Vendor::Apple),
        0x002241 => Some(Vendor::Apple),
        0x002312 => Some(Vendor::Apple),
        0x002332 => Some(Vendor::Apple),
        0x00236C => Some(Vendor::Apple),
        0x0023DF => Some(Vendor::Apple),
        0x002436 => Some(Vendor::Apple),
        0x002500 => Some(Vendor::Apple),
        0x00254B => Some(Vendor::Apple),
        0x0025BC => Some(Vendor::Apple),
        0x002608 => Some(Vendor::Apple),
        0x00264A => Some(Vendor::Apple),
        0x0026B0 => Some(Vendor::Apple),
        0x0026BB => Some(Vendor::Apple),
        0x003065 => Some(Vendor::Apple),
        0x003EE1 => Some(Vendor::Apple),
        0x0050E4 => Some(Vendor::Apple),
        0x0056CD => Some(Vendor::Apple),
        0x006171 => Some(Vendor::Apple),
        0x006D52 => Some(Vendor::Apple),
        0x008865 => Some(Vendor::Apple),
        0x00B362 => Some(Vendor::Apple),
        0x00C610 => Some(Vendor::Apple),
        0x00CDFE => Some(Vendor::Apple),
        0x00DB70 => Some(Vendor::Apple),
        0x00F4B9 => Some(Vendor::Apple),
        0x00F76F => Some(Vendor::Apple),
        0x040CCE => Some(Vendor::Apple),
        0x041552 => Some(Vendor::Apple),
        0x042665 => Some(Vendor::Apple),
        0x04489A => Some(Vendor::Apple),
        0x044BED => Some(Vendor::Apple),
        0x0452F3 => Some(Vendor::Apple),
        0x045453 => Some(Vendor::Apple),
        0x0469F8 => Some(Vendor::Apple),
        0x04D3CF => Some(Vendor::Apple),
        0x04DB56 => Some(Vendor::Apple),
        0x04E536 => Some(Vendor::Apple),
        0x04F13E => Some(Vendor::Apple),
        0x04F7E4 => Some(Vendor::Apple),
        0x0000F0 => Some(Vendor::Samsung),
        0x000278 => Some(Vendor::Samsung),
        0x0007AB => Some(Vendor::Samsung),
        0x000918 => Some(Vendor::Samsung),
        0x000DAE => Some(Vendor::Samsung),
        0x000DE5 => Some(Vendor::Samsung),
        0x001247 => Some(Vendor::Samsung),
        0x0012FB => Some(Vendor::Samsung),
        0x001377 => Some(Vendor::Samsung),
        0x001599 => Some(Vendor::Samsung),
        0x0015B9 => Some(Vendor::Samsung),
        0x001632 => Some(Vendor::Samsung),
        0x00166B => Some(Vendor::Samsung),
        0x00166C => Some(Vendor::Samsung),
        0x0016DB => Some(Vendor::Samsung),
        0x0017C9 => Some(Vendor::Samsung),
        0x0017D5 => Some(Vendor::Samsung),
        0x0018AF => Some(Vendor::Samsung),
        0x001A8A => Some(Vendor::Samsung),
        0x001B98 => Some(Vendor::Samsung),
        0x001C43 => Some(Vendor::Samsung),
        0x001D25 => Some(Vendor::Samsung),
        0x001DF6 => Some(Vendor::Samsung),
        0x001E7D => Some(Vendor::Samsung),
        0x001FCC => Some(Vendor::Samsung),
        0x001FCD => Some(Vendor::Samsung),
        0x002119 => Some(Vendor::Samsung),
        0x00214C => Some(Vendor::Samsung),
        0x0021D1 => Some(Vendor::Samsung),
        0x0021D2 => Some(Vendor::Samsung),
        0x002339 => Some(Vendor::Samsung),
        0x00233A => Some(Vendor::Samsung),
        0x002399 => Some(Vendor::Samsung),
        0x0023D6 => Some(Vendor::Samsung),
        0x0023D7 => Some(Vendor::Samsung),
        0x002454 => Some(Vendor::Samsung),
        0x002490 => Some(Vendor::Samsung),
        0x002491 => Some(Vendor::Samsung),
        0x002566 => Some(Vendor::Samsung),
        0x002567 => Some(Vendor::Samsung),
        0x002637 => Some(Vendor::Samsung),
        0x00265D => Some(Vendor::Samsung),
        0x00265F => Some(Vendor::Samsung),
        0x001A11 => Some(Vendor::Google),
        0x3C5AB4 => Some(Vendor::Google),
        0x546009 => Some(Vendor::Google),
        0x94EB2C => Some(Vendor::Google),
        0xA47733 => Some(Vendor::Google),
        0xF4F5D8 => Some(Vendor::Google),
        0xF4F5E8 => Some(Vendor::Google),
        0x0002B3 => Some(Vendor::Intel),
        0x000347 => Some(Vendor::Intel),
        0x000423 => Some(Vendor::Intel),
        0x0007E9 => Some(Vendor::Intel),
        0x000CF1 => Some(Vendor::Intel),
        0x000E0C => Some(Vendor::Intel),
        0x000E35 => Some(Vendor::Intel),
        0x001111 => Some(Vendor::Intel),
        0x0012F0 => Some(Vendor::Intel),
        0x001302 => Some(Vendor::Intel),
        0x001320 => Some(Vendor::Intel),
        0x0013CE => Some(Vendor::Intel),
        0x0013E8 => Some(Vendor::Intel),
        0x001500 => Some(Vendor::Intel),
        0x001517 => Some(Vendor::Intel),
        0x00166F => Some(Vendor::Intel),
        0x001676 => Some(Vendor::Intel),
        0x0016EA => Some(Vendor::Intel),
        0x0016EB => Some(Vendor::Intel),
        0x0018DE => Some(Vendor::Intel),
        0x0019D1 => Some(Vendor::Intel),
        0x0019D2 => Some(Vendor::Intel),
        0x001B21 => Some(Vendor::Intel),
        0x001B77 => Some(Vendor::Intel),
        0x001CBF => Some(Vendor::Intel),
        0x001CC0 => Some(Vendor::Intel),
        0x001DE0 => Some(Vendor::Intel),
        0x001DE1 => Some(Vendor::Intel),
        0x001E64 => Some(Vendor::Intel),
        0x001E65 => Some(Vendor::Intel),
        0x001E67 => Some(Vendor::Intel),
        0x001F3B => Some(Vendor::Intel),
        0x001F3C => Some(Vendor::Intel),
        0x0020E0 => Some(Vendor::Intel),
        0x00215C => Some(Vendor::Intel),
        0x00215D => Some(Vendor::Intel),
        0x00216A => Some(Vendor::Intel),
        0x00216B => Some(Vendor::Intel),
        0x0022FA => Some(Vendor::Intel),
        0x0022FB => Some(Vendor::Intel),
        0x002314 => Some(Vendor::Intel),
        0x002315 => Some(Vendor::Intel),
        0x0024D6 => Some(Vendor::Intel),
        0x0024D7 => Some(Vendor::Intel),
        0x0026C6 => Some(Vendor::Intel),
        0x0026C7 => Some(Vendor::Intel),
        0x002710 => Some(Vendor::Intel),
        0x000D3A => Some(Vendor::Microsoft),
        0x00125A => Some(Vendor::Microsoft),
        0x00155D => Some(Vendor::Microsoft),
        0x0017FA => Some(Vendor::Microsoft),
        0x001DD8 => Some(Vendor::Microsoft),
        0x002248 => Some(Vendor::Microsoft),
        0x0025AE => Some(Vendor::Microsoft),
        0x0050F2 => Some(Vendor::Microsoft),
        0x281878 => Some(Vendor::Microsoft),
        0x3059B7 => Some(Vendor::Microsoft),
        0x501AC5 => Some(Vendor::Microsoft),
        0x5882A8 => Some(Vendor::Microsoft),
        0x6045BD => Some(Vendor::Microsoft),
        0x7C1E52 => Some(Vendor::Microsoft),
        0x7CED8D => Some(Vendor::Microsoft),
        0x001882 => Some(Vendor::Huawei),
        0x001E10 => Some(Vendor::Huawei),
        0x0022A1 => Some(Vendor::Huawei),
        0x002568 => Some(Vendor::Huawei),
        0x00259E => Some(Vendor::Huawei),
        0x0034FE => Some(Vendor::Huawei),
        0x00464B => Some(Vendor::Huawei),
        0x005A13 => Some(Vendor::Huawei),
        0x00664B => Some(Vendor::Huawei),
        0x009ACD => Some(Vendor::Huawei),
        0x00E0FC => Some(Vendor::Huawei),
        0x00F81C => Some(Vendor::Huawei),
        0x009EC8 => Some(Vendor::Xiaomi),
        0x04CF8C => Some(Vendor::Xiaomi),
        0x0C1DAF => Some(Vendor::Xiaomi),
        0x102AB3 => Some(Vendor::Xiaomi),
        0x14F65A => Some(Vendor::Xiaomi),
        0x185936 => Some(Vendor::Xiaomi),
        0x2034FB => Some(Vendor::Xiaomi),
        0x286C07 => Some(Vendor::Xiaomi),
        0x3480B3 => Some(Vendor::Xiaomi),
        0x38A4ED => Some(Vendor::Xiaomi),
        0x3CBD3E => Some(Vendor::Xiaomi),
        0x44237C => Some(Vendor::Xiaomi),
        0x508F4C => Some(Vendor::Xiaomi),
        0x584498 => Some(Vendor::Xiaomi),
        0x640980 => Some(Vendor::Xiaomi),
        0x64B473 => Some(Vendor::Xiaomi),
        0x68DFDD => Some(Vendor::Xiaomi),
        0x742344 => Some(Vendor::Xiaomi),
        0x7802F8 => Some(Vendor::Xiaomi),
        0x7811DC => Some(Vendor::Xiaomi),
        0x001B52 => Some(Vendor::OnePlus),
        0x64A2F9 => Some(Vendor::OnePlus),
        0x94652D => Some(Vendor::OnePlus),
        0xC0EEFB => Some(Vendor::OnePlus),
        0x00FC8B => Some(Vendor::Amazon),
        0x0C47C9 => Some(Vendor::Amazon),
        0x10AE60 => Some(Vendor::Amazon),
        0x18742E => Some(Vendor::Amazon),
        0x34D270 => Some(Vendor::Amazon),
        0x40B4CD => Some(Vendor::Amazon),
        0x44650D => Some(Vendor::Amazon),
        0x50DCE7 => Some(Vendor::Amazon),
        0x6837E9 => Some(Vendor::Amazon),
        0x6854FD => Some(Vendor::Amazon),
        0x74C246 => Some(Vendor::Amazon),
        0x84D6D0 => Some(Vendor::Amazon),
        0xA002DC => Some(Vendor::Amazon),
        0xAC63BE => Some(Vendor::Amazon),
        0xB47C9C => Some(Vendor::Amazon),
        0xF0272D => Some(Vendor::Amazon),
        0xFCA183 => Some(Vendor::Amazon),
        0x18FE34 => Some(Vendor::Espressif),
        0x240AC4 => Some(Vendor::Espressif),
        0x2462AB => Some(Vendor::Espressif),
        0x246F28 => Some(Vendor::Espressif),
        0x24B2DE => Some(Vendor::Espressif),
        0x2C3AE8 => Some(Vendor::Espressif),
        0x30AEA4 => Some(Vendor::Espressif),
        0x3C6105 => Some(Vendor::Espressif),
        0x3C71BF => Some(Vendor::Espressif),
        0x483FDA => Some(Vendor::Espressif),
        0x4C11AE => Some(Vendor::Espressif),
        0x5CCF7F => Some(Vendor::Espressif),
        0x600194 => Some(Vendor::Espressif),
        0x68C63A => Some(Vendor::Espressif),
        0x840D8E => Some(Vendor::Espressif),
        0x84CCA8 => Some(Vendor::Espressif),
        0x84F3EB => Some(Vendor::Espressif),
        0xA020A6 => Some(Vendor::Espressif),
        0xA47B9D => Some(Vendor::Espressif),
        0xA4CF12 => Some(Vendor::Espressif),
        0xACD074 => Some(Vendor::Espressif),
        0xB4E62D => Some(Vendor::Espressif),
        0xBCDDC2 => Some(Vendor::Espressif),
        0xC44F33 => Some(Vendor::Espressif),
        0xC82B96 => Some(Vendor::Espressif),
        0xCC50E3 => Some(Vendor::Espressif),
        0xD8A01D => Some(Vendor::Espressif),
        0xDC4F22 => Some(Vendor::Espressif),
        0xECFABC => Some(Vendor::Espressif),
        0xB827EB => Some(Vendor::RaspberryPi),
        0xDCA632 => Some(Vendor::RaspberryPi),
        0xE45F01 => Some(Vendor::RaspberryPi),
        0x001D0F => Some(Vendor::TpLink),
        0x002719 => Some(Vendor::TpLink),
        0x14CC20 => Some(Vendor::TpLink),
        0x14CF92 => Some(Vendor::TpLink),
        0x18A6F7 => Some(Vendor::TpLink),
        0x1C3BF3 => Some(Vendor::TpLink),
        0x30B5C2 => Some(Vendor::TpLink),
        0x50C7BF => Some(Vendor::TpLink),
        0x54C80F => Some(Vendor::TpLink),
        0x5C899A => Some(Vendor::TpLink),
        0x60E327 => Some(Vendor::TpLink),
        0x645601 => Some(Vendor::TpLink),
        0x647002 => Some(Vendor::TpLink),
        0x6CB0CE => Some(Vendor::TpLink),
        0x784476 => Some(Vendor::TpLink),
        0x90F652 => Some(Vendor::TpLink),
        0x94D9B3 => Some(Vendor::TpLink),
        0x98DAC4 => Some(Vendor::TpLink),
        0xA0F3C1 => Some(Vendor::TpLink),
        0xAC84C6 => Some(Vendor::TpLink),
        0xB04E26 => Some(Vendor::TpLink),
        0xB09575 => Some(Vendor::TpLink),
        0xC025E9 => Some(Vendor::TpLink),
        0xC46E1F => Some(Vendor::TpLink),
        0xC83A35 => Some(Vendor::TpLink),
        0xD46E0E => Some(Vendor::TpLink),
        0xD807B6 => Some(Vendor::TpLink),
        0xE894F6 => Some(Vendor::TpLink),
        0xEC086B => Some(Vendor::TpLink),
        0xEC172F => Some(Vendor::TpLink),
        0xF4F26D => Some(Vendor::TpLink),
        0x00014A => Some(Vendor::Sony),
        0x00041F => Some(Vendor::Sony),
        0x0013A9 => Some(Vendor::Sony),
        0x0015C1 => Some(Vendor::Sony),
        0x001963 => Some(Vendor::Sony),
        0x001A80 => Some(Vendor::Sony),
        0x001DBA => Some(Vendor::Sony),
        0x001EA4 => Some(Vendor::Sony),
        0x00219E => Some(Vendor::Sony),
        0x002345 => Some(Vendor::Sony),
        0x0024BE => Some(Vendor::Sony),
        0x00EB2D => Some(Vendor::Sony),
        0x045D4B => Some(Vendor::Sony),
        0x04766E => Some(Vendor::Sony),
        0x104FA8 => Some(Vendor::Sony),
        0x2421AB => Some(Vendor::Sony),
        0x280DFC => Some(Vendor::Sony),
        0x3017C8 => Some(Vendor::Sony),
        0x30A9DE => Some(Vendor::Sony),
        0x001C62 => Some(Vendor::Lg),
        0x001E75 => Some(Vendor::Lg),
        0x001F6B => Some(Vendor::Lg),
        0x001FE3 => Some(Vendor::Lg),
        0x0022A9 => Some(Vendor::Lg),
        0x0025E5 => Some(Vendor::Lg),
        0x0026E2 => Some(Vendor::Lg),
        0x0034DA => Some(Vendor::Lg),
        0x00AA70 => Some(Vendor::Lg),
        0x00E091 => Some(Vendor::Lg),
        0x043389 => Some(Vendor::Lg),
        0x08D42B => Some(Vendor::Lg),
        0x10683F => Some(Vendor::Lg),
        0x10F96F => Some(Vendor::Lg),
        0x14C913 => Some(Vendor::Lg),
        0x1CBCD0 => Some(Vendor::Lg),
        0x2021A5 => Some(Vendor::Lg),
        0x283F69 => Some(Vendor::Lg),
        _ => None,
    }
}

pub open spec fn is_mac_sep(c: char) -> bool {
    c == ':' || c == '-' || c == '.'
}

/// The pieces of `s` between separators (`:`, `-`, `.`).
pub open spec fn mac_fields(s: Seq<char>) -> Seq<Seq<char>>
    decreases s.len(),
{
    if s.len() == 0 {
        seq![Seq::empty()]
    } else {
        let f = mac_fields(s.drop_last());
        if is_mac_sep(s.last()) {
            f.push(Seq::empty())
        } else {
            f.update(f.len() - 1, f.last().push(s.last()))
        }
    }
}

pub open spec fn upper_text(s: Seq<char>) -> Seq<char> {
    s.map_values(|c: char| ascii_upper(c))
}

/// A field of exactly two upper-case hex digits, as a byte.
pub open spec fn field_byte(f: Seq<char>) -> Option<u8> {
    if f.len() == 2 && is_upper_hex(f[0]) && is_upper_hex(f[1]) {
        Some((16 * hex_value(f[0])->0 + hex_value(f[1])->0) as u8)
    } else {
        None
    }
}

/// The OUI of a MAC text: its first three fields, upper-cased, each two hex
/// digits.
pub open spec fn oui_key(mac: Seq<char>) -> Option<int> {
    let fs = mac_fields(upper_text(mac));
    if fs.len() < 3 {
        None
    } else {
        match (field_byte(fs[0]), field_byte(fs[1]), field_byte(fs[2])) {
            (Some(a), Some(b), Some(c)) => Some(a as int * 65536 + b as int * 256 + c as int),
            _ => None,
        }
    }
}

pub open spec fn mac_vendor(mac: Seq<char>) -> Option<Vendor> {
    match oui_key(mac) {
        Some(k) => oui_vendor(k as u32),
        None => None,
    }
}

/// The MAC text without separators.
pub open spec fn strip_seps(s: Seq<char>) -> Seq<char>
    decreases s.len(),
{
    if s.len() == 0 {
        s
    } else if is_mac_sep(s.last()) {
        strip_seps(s.drop_last())
    } else {
        strip_seps(s.drop_last()).push(s.last())
    }
}

/// The first byte of the address (its first two hex digits, or a `+` and
/// one digit) has the locally-administered bit (bit 1) set.
pub open spec fn is_randomized(mac: Seq<char>) -> bool {
    let t = strip_seps(mac);
    &&& t.len() >= 2
    &&& (hex_value(t[0]) is Some || t[0] == '+')
    &&& hex_value(t[1]) is Some
    &&& (hex_value(t[1])->0 / 2) % 2 == 1
}

fn field_byte_of(f: &Vec<char>) -> (r: Option<u8>)
    ensures
        r == field_byte(f@),
{
    if f.len() != 2 {
        return None;
    }
    let a = f[0];
    let b = f[1];
    if !(('0' <= a && a <= '9') || ('A' <= a && a <= 'F')) || !(('0' <= b && b <= '9') || (
    'A' <= b && b <= 'F')) {
        return None;
    }
    let x = hex_char_value(a).unwrap();
    let y = hex_char_value(b).unwrap();
    Some(16 * x + y)
}

/// The OUI of a MAC text, as a 24-bit number.
fn oui_key_of(mac: &str) -> (r: Option<u32>)
    ensures
        r matches Some(k) ==> oui_key(mac@) == Some(k as int),
        r is None ==> oui_key(mac@) is None,
{
    let n = mac.unicode_len();
    let mut done: Vec<Option<u8>> = Vec::new();
    let mut cur: Vec<char> = Vec::new();
    let mut i: usize = 0;
    while i < n
        invariant
            n == mac@.len(),
            i <= n,
            mac_fields(upper_text(mac@.subrange(0, i as int))).len() >= 1,
            cur@ == mac_fields(upper_text(mac@.subrange(0, i as int))).last(),
            done@ == mac_fields(upper_text(mac@.subrange(0, i as int))).drop_last().map_values(
                |f: Seq<char>| field_byte(f),
            ),
        decreases n - i,
    {
        let c = upper_char(mac.get_char(i));
        let ghost pre = mac@.subrange(0, i as int + 1);
        let ghost fs = mac_fields(upper_text(mac@.subrange(0, i as int)));
        assert(upper_text(pre) =~= upper_text(mac@.subrange(0, i as int)).push(c));
        assert(upper_text(pre).drop_last() =~= upper_text(mac@.subrange(0, i as int)));
        if c == ':' || c == '-' || c == '.' {
            let b = field_byte_of(&cur);
            done.push(b);
            cur = Vec::new();
            proof {
                assert(fs.push(Seq::empty()).drop_last() =~= fs);
                assert(fs =~= fs.drop_last().push(fs.last()));
                assert(done@ =~= fs.map_values(|f: Seq<char>| field_byte(f)));
            }
        } else {
            cur.push(c);
            proof {
                let g = fs.update(fs.len() - 1, fs.last().push(c));
                assert(g.drop_last() =~= fs.drop_last());
            }
        }
        i = i + 1;
    }
    assert(mac@.subrange(0, n as int) =~= mac@);
    let last = field_byte_of(&cur);
    done.push(last);
    proof {
        let fs = mac_fields(upper_text(mac@));
        assert(fs =~= fs.drop_last().push(fs.last()));
        assert(done@ =~= fs.map_values(|f: Seq<char>| field_byte(f)));
    }
    if done.len() < 3 {
        return None;
    }
    match (done[0], done[1], done[2]) {
        (Some(a), Some(b), Some(c)) => Some(a as u32 * 65536 + b as u32 * 256 + c as u32),
        _ => None,
    }
}

/// The vendor registered for the address's OUI.
pub fn vendor_of(mac: &str) -> (r: Option<Vendor>)
    ensures
        r == mac_vendor(mac@),
{
    match oui_key_of(mac) {
        Some(k) => oui_vendor_of(k),
        None => None,
    }
}

/// The name of the vendor registered for the address's OUI.
pub fn lookup_vendor(mac: &str) -> (r: Option<&'static str>)
    ensures
        r matches Some(s) ==> mac_vendor(mac@) matches Some(v) && s == vendor_label(v),
        r is None ==> mac_vendor(mac@) is None,
{
    match vendor_of(mac) {
        Some(v) => Some(v.label()),
        None => None,
    }
}

/// Whether the address is locally administered, as randomised addresses
/// are: bit 1 of its first byte is set.
pub fn is_randomized_mac(mac: &str) -> (r: bool)
    ensures
        r == is_randomized(mac@),
{
    let n = mac.unicode_len();
    let mut first: Vec<char> = Vec::new();
    let mut i: usize = 0;
    while i < n && first.len() < 2
        invariant
            n == mac@.len(),
            i <= n,
            first@.len() <= 2,
            first@.len() < 2 ==> first@ == strip_seps(mac@.subrange(0, i as int)),
            first@.len() == 2 ==> strip_seps(mac@.subrange(0, i as int)).len() >= 2
                && first@ == strip_seps(mac@.subrange(0, i as int)).subrange(0, 2),
        decreases n - i,
    {
        let c = mac.get_char(i);
        let ghost pre = mac@.subrange(0, i as int + 1);
        assert(pre.drop_last() =~= mac@.subrange(0, i as int));
        if !(c == ':' || c == '-' || c == '.') {
            first.push(c);
            assert(first@ =~= strip_seps(pre).subrange(0, first@.len() as int));
        }
        i = i + 1;
    }
    proof {
        lemma_strip_prefix(mac@, i as int);
        if first@.len() < 2 {
            assert(mac@.subrange(0, i as int) =~= mac@);
        } else {
            let sp = strip_seps(mac@.subrange(0, i as int));
            assert(first@[0] == sp[0]);
            assert(first@[1] == sp[1]);
            assert(strip_seps(mac@)[0] == sp[0]);
            assert(strip_seps(mac@)[1] == sp[1]);
        }
    }
    if first.len() < 2 {
        return false;
    }
    let a = first[0];
    let b = first[1];
    let lead_ok = hex_char_value(a).is_some() || a == '+';
    match hex_char_value(b) {
        Some(h) => lead_ok && (h / 2) % 2 == 1,
        None => false,
    }
}

/// Stripping a longer prefix keeps the stripped shorter prefix in front.
proof fn lemma_strip_prefix(s: Seq<char>, i: int)
    requires
        0 <= i <= s.len(),
    ensures
        strip_seps(s).len() >= strip_seps(s.subrange(0, i)).len(),
        forall|k: int|
            0 <= k < strip_seps(s.subrange(0, i)).len() ==> strip_seps(s)[k] == strip_seps(
                s.subrange(0, i),
            )[k],
    decreases s.len() - i,
{
    if i < s.len() {
        lemma_strip_prefix(s, i + 1);
        let p = s.subrange(0, i + 1);
        assert(p.drop_last() =~= s.subrange(0, i));
    } else {
        assert(s.subrange(0, i) =~= s);
    }
}

/// Short display code for the address's maker: `RND` for a randomised
/// address, the vendor's code, or `UNK`.
pub fn vendor_short(mac: &str) -> (r: String)
    ensures
        is_randomized(mac@) ==> r@ == "RND"@,
        !is_randomized(mac@) ==> (mac_vendor(mac@) matches Some(v) ==> r@ == vendor_code(v)@),
        !is_randomized(mac@) ==> (mac_vendor(mac@) is None ==> r@ == "UNK"@),
{
    if is_randomized_mac(mac) {
        return String::from_str("RND");
    }
    match vendor_of(mac) {
        Some(v) => String::from_str(v.code()),
        None => String::from_str("UNK"),
    }
}

/// The kind of device a vendor usually makes.
pub open spec fn device_kind(mac: Seq<char>, vendor: Option<Seq<char>>) -> &'static str {
    if is_randomized(mac) {
        "Phone/Tablet"
    } else {
        match vendor {
            None => "Unknown",
            Some(v) => if v == "Apple"@ || v == "Samsung"@ || v == "Huawei"@ || v == "Xiaomi"@
                || v == "OnePlus"@ || v == "Google"@ {
                "Phone/Tablet"
            } else if v == "Intel"@ || v == "Microsoft"@ {
                "Laptop/PC"
            } else if v == "Espressif"@ || v == "Raspberry Pi"@ {
                "IoT"
            } else if v == "Amazon"@ {
                "Echo/Fire"
            } else if v == "Sony"@ {
                "PlayStation/TV"
            } else if v == "LG"@ {
                "TV/Phone"
            } else if v == "TP-Link"@ {
                "Router/IoT"
            } else {
                "Unknown"
            },
        }
    }
}

fn str_equal(a: &str, b: &str) -> (r: bool)
    ensures
        r == (a@ == b@),
{
    let n = a.unicode_len();
    if n != b.unicode_len() {
        return false;
    }
    let mut i: usize = 0;
    while i < n
        invariant
            n == a@.len() == b@.len(),
            i <= n,
            forall|k: int| 0 <= k < i ==> a@[k] == b@[k],
        decreases n - i,
    {
        if a.get_char(i) != b.get_char(i) {
            return false;
        }
        i = i + 1;
    }
    assert(a@ =~= b@);
    true
}

/// A hint at the kind of device, from the address and its vendor name.
pub fn infer_device_type(mac: &str, vendor: Option<&str>) -> (r: &'static str)
    ensures
        r == device_kind(mac@, match vendor { Some(v) => Some(v@), None => None }),
{
    if is_randomized_mac(mac) {
        return "Phone/Tablet";
    }
    match vendor {
        None => "Unknown",
        Some(v) => {
            if str_equal(v, "Apple") || str_equal(v, "Samsung") || str_equal(v, "Huawei")
                || str_equal(v, "Xiaomi") || str_equal(v, "OnePlus") || str_equal(v, "Google") {
                "Phone/Tablet"
            } else if str_equal(v, "Intel") || str_equal(v, "Microsoft") {
                "Laptop/PC"
            } else if str_equal(v, "Espressif") || str_equal(v, "Raspberry Pi") {
                "IoT"
            } else if str_equal(v, "Amazon") {
                "Echo/Fire"
            } else if str_equal(v, "Sony") {
                "PlayStation/TV"
            } else if str_equal(v, "LG") {
                "TV/Phone"
            } else if str_equal(v, "TP-Link") {
                "Router/IoT"
            } else {
                "Unknown"
            }
        },
    }
}

} // verus!
