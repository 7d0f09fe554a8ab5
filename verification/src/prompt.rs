//! Prompt rendering and the feeding order of image prompts.
//!
//! A conversation format is a template holding a `{prompt}` variable;
//! rendering substitutes the user's text into it. A rendered image
//! prompt may hold an `{image}` marker saying where the image embedding
//! belongs; the plan below fixes the order in which text and image are
//! fed to the backend.

use vstd::prelude::*;
use vstd::string::StrSliceExecFns;
use crate::error::Error;
use crate::strutil::{contains_seq, find_sub, is_match_at};

verus! {

/// What the formatter returns for a template with one `prompt`
/// variable: a pure function of the template and the value.
pub uninterp spec fn prompt_formatted(template: Seq<char>, prompt: Seq<char>) -> Seq<char>;

/// Relies on strfmt::strfmt with a single `prompt` variable: the
/// result depends on the template and the value alone; a template the
/// formatter rejects yields `None`.
#[verifier::external_body]
fn strfmt_prompt(template: &str, prompt: &str) -> (r: Option<String>)
    ensures
        r is Some ==> r->0@ == prompt_formatted(template@, prompt@),
{
    let mut vars = std::collections::HashMap::new();
    vars.insert("prompt".to_string(), prompt);
    match strfmt::strfmt(template, &vars) {
        Ok(s) => Some(s),
        Err(_) => None,
    }
}

/// Substitutes `prompt` into the conversation format `template`.
pub fn render_prompt(template: &str, prompt: &str) -> (r: Result<String, Error>)
    ensures
        match r {
            Ok(s) => s@ == prompt_formatted(template@, prompt@),
            Err(e) => e is PromptFormat,
        },
{
    match strfmt_prompt(template, prompt) {
        Some(s) => Ok(s),
        None => Err(Error::PromptFormat),
    }
}

/// One step of feeding a prompt with an image to the backend.
#[derive(Debug)]
pub enum EvalStep {
    /// Feed this text; the flag says whether the step may prepend the
    /// beginning-of-stream token.
    Text(String, bool),
    /// Feed the image embedding.
    Image,
}

/// The marker that places the image inside a rendered prompt.
pub open spec fn image_marker() -> Seq<char> {
    "{image}"@
}

/// The feeding order for a rendered image prompt.
///
/// When the prompt holds an `{image}` marker, the text before the
/// first marker is fed first without a stream start, then the image,
/// then the text after the marker with a stream start. Without a
/// marker, the image is fed first and the whole text follows it.
pub fn image_eval_plan(rendered: &str) -> (r: Vec<EvalStep>)
    ensures
        contains_seq(rendered@, image_marker()) ==> exists|i: int|
            {
                &&& #[trigger] is_match_at(rendered@, image_marker(), i)
                &&& forall|j: int| 0 <= j < i ==> !is_match_at(rendered@, image_marker(), j)
                &&& r@.len() == 3
                &&& r@[0] is Text
                &&& r@[0]->Text_0@ == rendered@.take(i)
                &&& r@[0]->Text_1 == false
                &&& r@[1] is Image
                &&& r@[2] is Text
                &&& r@[2]->Text_0@ == rendered@.skip(i + image_marker().len())
                &&& r@[2]->Text_1 == true
            },
        !contains_seq(rendered@, image_marker()) ==> r@.len() == 2 && r@[0] is Image
            && r@[1] is Text && r@[1]->Text_0@ == rendered@ && r@[1]->Text_1 == true,
{
    proof {
        reveal_strlit("{image}");
    }
    let n: usize = rendered.unicode_len();
    match find_sub(rendered, "{image}") {
        Some(i) => {
            proof {
                assert(is_match_at(rendered@, image_marker(), i as int));
            }
            let before = rendered.substring_char(0, i).to_owned();
            let after = rendered.substring_char(i + 7, n).to_owned();
            proof {
                assert(before@ =~= rendered@.take(i as int));
                assert(after@ =~= rendered@.skip(i + 7));
            }
            let mut r: Vec<EvalStep> = Vec::new();
            r.push(EvalStep::Text(before, false));
            r.push(EvalStep::Image);
            r.push(EvalStep::Text(after, true));
            r
        },
        None => {
            let mut r: Vec<EvalStep> = Vec::new();
            r.push(EvalStep::Image);
            r.push(EvalStep::Text(rendered.to_owned(), true));
            r
        },
    }
}

} // verus!
