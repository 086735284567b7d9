//! The template codec: renders a template string with a key/value data
//! structure through the outside template library. The data must be a JSON
//! object; anything else is rejected before the library is called.

use vstd::prelude::*;
use crate::error::UtilsError;
use crate::jsoncodec::is_json_object;

verus! {

/// The outside template library's render error.
#[verifier::external_type_specification]
#[verifier::external_body]
pub struct ExRenderError(handlebars::RenderError);

/// What rendering this template with this data yields on a fresh registry:
/// a fixed function of the two arguments, named rather than restated here.
pub uninterp spec fn hbs_rendered(tmpl: Seq<char>, data: serde_json::Value) -> Result<
    Seq<char>,
    (),
>;

/// Relies on `Handlebars::render_template`: renders the template string
/// with the given data on a fresh registry, without registering it; the
/// outcome depends on the template and the data alone.
#[verifier::external_body]
fn render_template(tmpl: &str, data: &serde_json::Value) -> (r: Result<String, handlebars::RenderError>)
    ensures
        r is Ok <==> hbs_rendered(tmpl@, *data) is Ok,
        r matches Ok(s) ==> (hbs_rendered(tmpl@, *data) matches Ok(t) && t == s@),
{
    handlebars::Handlebars::new().render_template(tmpl, data)
}

/// Relies on `ToString` via the error's `Display`: the library's message
/// for a render error.
#[verifier::external_body]
fn render_error_text(e: &handlebars::RenderError) -> String {
    e.to_string()
}

/// Renders a template with the given data. Data that is not a JSON object
/// is rejected; otherwise the call succeeds exactly when the library
/// renders the template, and returns what it rendered. A failure carries
/// its message under this function's namespace.
pub fn hbs_render(tmpl: &str, data: &serde_json::Value) -> (r: Result<String, UtilsError>)
    ensures
        !is_json_object(*data) ==> r is Err,
        is_json_object(*data) ==> (r is Ok <==> hbs_rendered(tmpl@, *data) is Ok),
        r matches Ok(s) ==> hbs_rendered(tmpl@, *data) == Ok::<_, ()>(s@),
        r matches Err(e) ==> (e matches UtilsError::Codec(_) && e.spec_message().take(25)
            == "utils.hbs.render failed: "@),
{
    proof {
        reveal_strlit("utils.hbs.render failed: ");
        reveal_strlit("utils.hbs.render failed: the data must be a key/value structure");
    }
    if !data.is_object() {
        let msg = String::from_str(
            "utils.hbs.render failed: the data must be a key/value structure",
        );
        proof {
            assert(msg@.take(25) =~= "utils.hbs.render failed: "@);
        }
        return Err(UtilsError::Codec(msg));
    }
    match render_template(tmpl, data) {
        Ok(s) => Ok(s),
        Err(e) => {
            let mut msg = String::from_str("utils.hbs.render failed: ");
            let text = render_error_text(&e);
            msg.append(text.as_str());
            proof {
                assert(msg@.take(25) =~= "utils.hbs.render failed: "@);
            }
            Err(UtilsError::Codec(msg))
        },
    }
}

} // verus!
