//! Typed data behind the share pages: the dispatch on the share kind and
//! the display forms of rank and rarity.  The HTML around these values is
//! presentation and lives outside the library.
use vstd::prelude::*;

verus! {

use crate::text::{i32_to_string, spec_dec_int, str_eq};

/// The kind of record a share page shows.
#[derive(Debug, PartialEq, Eq, Structural)]
pub enum ShareType {
    Inheritance,
    SupportCard,
}

/// The path parameters of a share page.
#[derive(Debug)]
pub struct SharePathParams {
    pub share_type: String,
    pub account_id: String,
}

/// The generic metadata of a share page.
#[derive(Debug)]
pub struct ShareData {
    pub share_type: ShareType,
    pub account_id: String,
    pub trainer_name: String,
    pub title: String,
    pub description: String,
    pub image_url: Option<String>,
    pub color: Option<String>,
}

/// The data of an inheritance share page.
#[derive(Debug)]
pub struct InheritanceShareData {
    pub account_id: String,
    pub trainer_name: String,
    pub character_name: String,
    pub parent_left_name: String,
    pub parent_right_name: String,
    pub parent_rank: i32,
    pub parent_rarity: i32,
    pub win_count: i32,
    pub white_count: i32,
    pub blue_factors_summary: String,
    pub pink_factors_summary: String,
    pub green_factors_summary: String,
    pub white_factors_summary: String,
    pub main_factors_summary: String,
}

/// The data of a support-card share page.
#[derive(Debug)]
pub struct SupportCardShareData {
    pub account_id: String,
    pub trainer_name: String,
    pub card_name: String,
    pub card_rarity: String,
    pub limit_break_count: Option<i32>,
    pub experience: i32,
    pub card_type: String,
}

/// Resolve a share-kind path segment; unknown segments resolve to nothing.
pub fn parse_share_type(s: &str) -> (r: Option<ShareType>)
    ensures
        s@ == "inheritance"@ ==> r == Some(ShareType::Inheritance),
        s@ == "support-card"@ ==> r == Some(ShareType::SupportCard),
        s@ != "inheritance"@ && s@ != "support-card"@ ==> r is None,
{
    proof {
        reveal_strlit("inheritance");
        reveal_strlit("support-card");
        assert("inheritance"@.len() == 11);
        assert("support-card"@.len() == 12);
        assert("inheritance"@ != "support-card"@);
    }
    if str_eq(s, "inheritance") {
        Some(ShareType::Inheritance)
    } else if str_eq(s, "support-card") {
        Some(ShareType::SupportCard)
    } else {
        None
    }
}

/// The display form of a parent rank letter grade.
pub open spec fn spec_rank_display(rank: i32) -> Seq<char> {
    if rank == 1 {
        "G"@
    } else if rank == 2 {
        "F"@
    } else if rank == 3 {
        "E"@
    } else if rank == 4 {
        "D"@
    } else if rank == 5 {
        "C"@
    } else if rank == 6 {
        "B"@
    } else if rank == 7 {
        "A"@
    } else if rank == 8 {
        "S"@
    } else if rank == 9 {
        "SS"@
    } else if rank == 10 {
        "SSS"@
    } else {
        "Rank "@ + spec_dec_int(rank as int)
    }
}

/// Render a parent rank as its letter grade.
pub fn get_rank_display(rank: i32) -> (r: String)
    ensures
        r@ == spec_rank_display(rank),
{
    if rank == 1 {
        String::from_str("G")
    } else if rank == 2 {
        String::from_str("F")
    } else if rank == 3 {
        String::from_str("E")
    } else if rank == 4 {
        String::from_str("D")
    } else if rank == 5 {
        String::from_str("C")
    } else if rank == 6 {
        String::from_str("B")
    } else if rank == 7 {
        String::from_str("A")
    } else if rank == 8 {
        String::from_str("S")
    } else if rank == 9 {
        String::from_str("SS")
    } else if rank == 10 {
        String::from_str("SSS")
    } else {
        let mut s = String::from_str("Rank ");
        let num = i32_to_string(rank);
        s.append(num.as_str());
        s
    }
}

/// The display form of a parent rarity as stars.
pub open spec fn spec_rarity_display(rarity: i32) -> Seq<char> {
    if rarity == 1 {
        "★"@
    } else if rarity == 2 {
        "★★"@
    } else if rarity == 3 {
        "★★★"@
    } else {
        spec_dec_int(rarity as int) + "★"@
    }
}

/// Render a parent rarity as stars.
pub fn get_rarity_display(rarity: i32) -> (r: String)
    ensures
        r@ == spec_rarity_display(rarity),
{
    if rarity == 1 {
        String::from_str("★")
    } else if rarity == 2 {
        String::from_str("★★")
    } else if rarity == 3 {
        String::from_str("★★★")
    } else {
        let s = i32_to_string(rarity);
        s.concat("★")
    }
}

} // verus!
