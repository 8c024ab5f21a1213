//! The catalogue of printed card attributes, looked up by card code.
use vstd::prelude::*;

verus! {

/// The printed attributes of a card: its name, its attack and its cost.
pub struct CardInfo {
    pub name: String,
    pub ack: u32,
    pub cost: u32,
}

/// The catalogue, as (name, attack, cost) for a card code.
/// Codes that the catalogue does not list read as an unknown card.
pub open spec fn catalogue_entry(code: Seq<char>) -> (Seq<char>, u32, u32) {
    if code == "S001-A-001"@ {
        ("APPLe"@, 1200u32, 1u32)
    } else if code == "NAAI-A-001"@ {
        ("Vertin 维尔汀"@, 0u32, 0u32)
    } else {
        ("Unknown"@, 0u32, 0u32)
    }
}

impl CardInfo {
    /// The attributes as plain values: (name, attack, cost).
    pub open spec fn entry(&self) -> (Seq<char>, u32, u32) {
        (self.name@, self.ack, self.cost)
    }
}

/// Looks a card code up in the catalogue.
pub fn get_card_info(num_code: &str) -> (info: CardInfo)
    ensures
        info.entry() == catalogue_entry(num_code@),
        num_code@ == "S001-A-001"@ ==> info.name@ == "APPLe"@ && info.ack == 1200 && info.cost == 1,
        num_code@ == "NAAI-A-001"@ ==> info.name@ == "Vertin 维尔汀"@ && info.ack == 0 && info.cost == 0,
        num_code@ != "S001-A-001"@ && num_code@ != "NAAI-A-001"@ ==> info.name@ == "Unknown"@
            && info.ack == 0 && info.cost == 0,
{
    proof {
        lemma_listed_codes_differ();
    }
    let code = num_code.to_owned();
    if code == "S001-A-001".to_owned() {
        CardInfo { name: "APPLe".to_owned(), ack: 1200, cost: 1 }
    } else if code == "NAAI-A-001".to_owned() {
        CardInfo { name: "Vertin 维尔汀".to_owned(), ack: 0, cost: 0 }
    } else {
        CardInfo { name: "Unknown".to_owned(), ack: 0, cost: 0 }
    }
}

/// The catalogue lists exactly two codes: "S001-A-001" is APPLe (attack
/// 1200, cost 1) and "NAAI-A-001" is Vertin (attack 0, cost 0); every other
/// code, however close to a listed one, reads as Unknown with attack 0 and
/// cost 0.
pub proof fn lemma_catalogue_lists_exact_codes(code: Seq<char>)
    ensures
        code == "S001-A-001"@ ==> catalogue_entry(code) == ("APPLe"@, 1200u32, 1u32),
        code == "NAAI-A-001"@ ==> catalogue_entry(code) == ("Vertin 维尔汀"@, 0u32, 0u32),
        code != "S001-A-001"@ && code != "NAAI-A-001"@ ==> catalogue_entry(code) == (
        "Unknown"@,
        0u32,
        0u32,
        ),
{
    lemma_listed_codes_differ();
}

proof fn lemma_listed_codes_differ()
    ensures
        "S001-A-001"@ != "NAAI-A-001"@,
{
    reveal_strlit("S001-A-001");
    reveal_strlit("NAAI-A-001");
    assert("S001-A-001"@[0] != "NAAI-A-001"@[0]);
}

} // verus!
