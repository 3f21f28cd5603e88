//! Safety thresholds sent with every upstream request.

use vstd::prelude::*;

verus! {

/// One harm category with the threshold applied to it.
#[derive(Debug, Clone)]
pub struct SafetySetting {
    pub category: String,
    pub threshold: String,
}

/// The harm categories, in the order in which they are sent.
pub open spec fn harm_categories() -> Seq<Seq<char>> {
    seq![
        "HARM_CATEGORY_HARASSMENT"@,
        "HARM_CATEGORY_HATE_SPEECH"@,
        "HARM_CATEGORY_SEXUALLY_EXPLICIT"@,
        "HARM_CATEGORY_DANGEROUS_CONTENT"@,
        "HARM_CATEGORY_CIVIC_INTEGRITY"@,
    ]
}

/// Whether `settings` lists every harm category once, in order, each with
/// `threshold`.
pub open spec fn uniform_settings(settings: Seq<SafetySetting>, threshold: Seq<char>) -> bool {
    &&& settings.len() == harm_categories().len()
    &&& forall|i: int|
        0 <= i < settings.len() ==> (#[trigger] settings[i]).category@ == harm_categories()[i]
            && settings[i].threshold@ == threshold
}

fn settings_with(threshold: &str) -> (r: Vec<SafetySetting>)
    ensures
        uniform_settings(r@, threshold@),
{
    let mut r: Vec<SafetySetting> = Vec::new();
    r.push(
        SafetySetting {
            category: "HARM_CATEGORY_HARASSMENT".to_string(),
            threshold: threshold.to_string(),
        },
    );
    r.push(
        SafetySetting {
            category: "HARM_CATEGORY_HATE_SPEECH".to_string(),
            threshold: threshold.to_string(),
        },
    );
    r.push(
        SafetySetting {
            category: "HARM_CATEGORY_SEXUALLY_EXPLICIT".to_string(),
            threshold: threshold.to_string(),
        },
    );
    r.push(
        SafetySetting {
            category: "HARM_CATEGORY_DANGEROUS_CONTENT".to_string(),
            threshold: threshold.to_string(),
        },
    );
    r.push(
        SafetySetting {
            category: "HARM_CATEGORY_CIVIC_INTEGRITY".to_string(),
            threshold: threshold.to_string(),
        },
    );
    r
}

/// Every harm category with the threshold `BLOCK_NONE`.
pub fn get_safety_settings() -> (r: Vec<SafetySetting>)
    ensures
        uniform_settings(r@, "BLOCK_NONE"@),
{
    settings_with("BLOCK_NONE")
}

/// Every harm category with the threshold `OFF`, as second-generation models
/// expect it.
pub fn get_safety_settings_g2() -> (r: Vec<SafetySetting>)
    ensures
        uniform_settings(r@, "OFF"@),
{
    settings_with("OFF")
}

} // verus!
