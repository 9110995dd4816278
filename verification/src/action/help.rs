//! The help handler: a fixed usage text listing the actions.
use vstd::prelude::*;

verus! {

/// The usage text, assembled around the entry prefix.
pub open spec fn spec_help_text() -> Seq<char> {
    "```USAGE: \n"@ + crate::ENTRY_STRING@
        + "[ACTION] [CONTEXT]\n\nACTION:\nCHAT   - Ask DeepSeek AI what you put in [CONTEXT].\nREASON - Ask DeepSeek AI what you put in [CONTEXT].\nTIMER  - Set a timer to trigger after time elapsed. (#d#h#m)```"@
}

/// The usage text that the help action replies with.
pub fn help_text() -> (r: String)
    ensures
        r@ == spec_help_text(),
{
    let mut text = String::from_str("```USAGE: \n");
    text.append(crate::ENTRY_STRING);
    text.append(
        "[ACTION] [CONTEXT]\n\nACTION:\nCHAT   - Ask DeepSeek AI what you put in [CONTEXT].\nREASON - Ask DeepSeek AI what you put in [CONTEXT].\nTIMER  - Set a timer to trigger after time elapsed. (#d#h#m)```",
    );
    text
}

} // verus!
