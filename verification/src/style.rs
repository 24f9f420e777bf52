//! The prompt-display policy: how prompt text is laid out on standard output.

use vstd::prelude::*;
use vstd::string::StringExecFns;

verus! {

/// Defines how the prompt should be printed before the read.
#[derive(Debug, Clone, Copy, PartialEq, Eq, Structural)]
pub enum PrintStyle {
    /// Print the prompt without a trailing newline, so the input is typed on
    /// the same visual line.
    Continue,
    /// Print the prompt with a trailing newline, so the input is typed on the
    /// next line.
    NewLine,
}

/// Renders the text that must be written to standard output before the read:
/// nothing when there is no prompt, the prompt itself for [`PrintStyle::Continue`],
/// and the prompt followed by one line feed for [`PrintStyle::NewLine`].
pub fn render_prompt(prompt: Option<&str>, style: PrintStyle) -> (r: Option<String>)
    ensures
        r is Some <==> prompt is Some,
        prompt matches Some(p) ==> r matches Some(out) && (if style is Continue {
            out@ == p@
        } else {
            out@ == p@.push('\n')
        }),
{
    match prompt {
        None => None,
        Some(p) => match style {
            PrintStyle::Continue => Some(String::from_str(p)),
            PrintStyle::NewLine => {
                let out = String::from_str(p).concat("\n");
                proof {
                    reveal_strlit("\n");
                    assert(out@ =~= p@.push('\n'));
                }
                Some(out)
            },
        },
    }
}

} // verus!
