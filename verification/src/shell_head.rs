//! The page head handed to the desktop window: the shell stylesheet plus the
//! `window.openkite` bridge script, inlined so the shell chrome paints before
//! any plugin bundle evaluates.

use vstd::prelude::*;

use crate::plugin_api::OPENKITE_BRIDGE_JS;
use crate::text::text_of;

verus! {

/// The head for a stylesheet: the stylesheet in a `<style>` element, a line
/// break, then the bridge script in a `<script>` element.
pub open spec fn head_text(css: Seq<char>) -> Seq<char> {
    "<style>"@ + css + "</style>\n<script>"@ + OPENKITE_BRIDGE_JS@ + "</script>"@
}

/// The page-head bootstrap for the shell stylesheet `css` (the host reads
/// the stylesheet from the application's assets).
pub fn bootstrap_head(css: &str) -> (r: String)
    ensures
        r@ == head_text(css@),
{
    let mut r = text_of("<style>");
    r.append(css);
    r.append("</style>\n<script>");
    r.append(OPENKITE_BRIDGE_JS);
    r.append("</script>");
    r
}

} // verus!
