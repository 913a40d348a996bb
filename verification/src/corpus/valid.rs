//! Valid reference art.
//!
//! These must render for real. They are the control group: if they ever fall
//! back, something has broken in the ordinary path and surviving hostile input
//! means nothing.

use vstd::prelude::*;
use crate::corpus::{add_artwork, artwork, no_cases, views, Case, CaseView, Expect, BASE_SVG};

verus! {

pub open spec fn valid_list() -> Seq<CaseView> {
    seq![
        artwork("valid-basic-shapes"@, BASE_SVG@),
        artwork(
            "valid-opaque-fill"@,
            r##"<svg xmlns="http://www.w3.org/2000/svg" viewBox="0 0 64 64"><rect width="64" height="64" fill="#2d89ef"/></svg>"##@,
        ),
        artwork(
            "valid-semi-transparent"@,
            r##"<svg xmlns="http://www.w3.org/2000/svg" viewBox="0 0 64 64"><rect width="64" height="64" fill="#ffffff" fill-opacity="0.5"/></svg>"##@,
        ),
        artwork(
            "valid-linear-gradient"@,
            r##"<svg xmlns="http://www.w3.org/2000/svg" viewBox="0 0 64 64"><defs><linearGradient id="g"><stop offset="0" stop-color="#ff0000"/><stop offset="1" stop-color="#0000ff"/></linearGradient></defs><rect width="64" height="64" fill="url(#g)"/></svg>"##@,
        ),
        artwork(
            "valid-transform"@,
            r##"<svg xmlns="http://www.w3.org/2000/svg" viewBox="0 0 64 64"><g transform="translate(32,32) rotate(45)"><rect x="-16" y="-16" width="32" height="32" fill="#0a0"/></g></svg>"##@,
        ),
        artwork(
            "valid-polygon"@,
            r##"<svg xmlns="http://www.w3.org/2000/svg" viewBox="0 0 64 64"><polygon points="32,4 60,60 4,60" fill="#e81123"/></svg>"##@,
        ),
        artwork(
            "valid-path"@,
            r##"<svg xmlns="http://www.w3.org/2000/svg" viewBox="0 0 64 64"><path d="M8 32 L32 8 L56 32 L32 56 Z" fill="#8764b8"/></svg>"##@,
        ),
        artwork(
            "valid-no-viewbox-with-dimensions"@,
            r##"<svg xmlns="http://www.w3.org/2000/svg" width="64" height="64"><rect width="64" height="64" fill="#0a0"/></svg>"##@,
        ),
        artwork(
            "valid-wide-aspect"@,
            r##"<svg xmlns="http://www.w3.org/2000/svg" viewBox="0 0 512 16"><rect width="512" height="16" fill="#0a0"/></svg>"##@,
        ),
        artwork(
            "valid-tall-aspect"@,
            r##"<svg xmlns="http://www.w3.org/2000/svg" viewBox="0 0 16 512"><rect width="16" height="512" fill="#0a0"/></svg>"##@,
        ),
        artwork(
            "valid-offset-viewbox-origin"@,
            r##"<svg xmlns="http://www.w3.org/2000/svg" viewBox="100 200 64 64"><rect x="100" y="200" width="64" height="64" fill="#0a0"/></svg>"##@,
        ),
        artwork(
            "valid-nested-svg"@,
            r##"<svg xmlns="http://www.w3.org/2000/svg" viewBox="0 0 64 64"><svg x="0" y="0" width="64" height="64" viewBox="0 0 32 32"><rect width="32" height="32" fill="#0a0"/></svg></svg>"##@,
        ),
    ]
}

pub fn valid_cases() -> (v: Vec<Case>)
    ensures
        views(v@) == valid_list(),
{
    let mut v: Vec<Case> = no_cases();
    add_artwork(&mut v, "valid-basic-shapes", BASE_SVG);
    add_artwork(
        &mut v,
        "valid-opaque-fill",
        r##"<svg xmlns="http://www.w3.org/2000/svg" viewBox="0 0 64 64"><rect width="64" height="64" fill="#2d89ef"/></svg>"##,
    );
    add_artwork(
        &mut v,
        "valid-semi-transparent",
        r##"<svg xmlns="http://www.w3.org/2000/svg" viewBox="0 0 64 64"><rect width="64" height="64" fill="#ffffff" fill-opacity="0.5"/></svg>"##,
    );
    add_artwork(
        &mut v,
        "valid-linear-gradient",
        r##"<svg xmlns="http://www.w3.org/2000/svg" viewBox="0 0 64 64"><defs><linearGradient id="g"><stop offset="0" stop-color="#ff0000"/><stop offset="1" stop-color="#0000ff"/></linearGradient></defs><rect width="64" height="64" fill="url(#g)"/></svg>"##,
    );
    add_artwork(
        &mut v,
        "valid-transform",
        r##"<svg xmlns="http://www.w3.org/2000/svg" viewBox="0 0 64 64"><g transform="translate(32,32) rotate(45)"><rect x="-16" y="-16" width="32" height="32" fill="#0a0"/></g></svg>"##,
    );
    add_artwork(
        &mut v,
        "valid-polygon",
        r##"<svg xmlns="http://www.w3.org/2000/svg" viewBox="0 0 64 64"><polygon points="32,4 60,60 4,60" fill="#e81123"/></svg>"##,
    );
    add_artwork(
        &mut v,
        "valid-path",
        r##"<svg xmlns="http://www.w3.org/2000/svg" viewBox="0 0 64 64"><path d="M8 32 L32 8 L56 32 L32 56 Z" fill="#8764b8"/></svg>"##,
    );
    add_artwork(
        &mut v,
        "valid-no-viewbox-with-dimensions",
        r##"<svg xmlns="http://www.w3.org/2000/svg" width="64" height="64"><rect width="64" height="64" fill="#0a0"/></svg>"##,
    );
    add_artwork(
        &mut v,
        "valid-wide-aspect",
        r##"<svg xmlns="http://www.w3.org/2000/svg" viewBox="0 0 512 16"><rect width="512" height="16" fill="#0a0"/></svg>"##,
    );
    add_artwork(
        &mut v,
        "valid-tall-aspect",
        r##"<svg xmlns="http://www.w3.org/2000/svg" viewBox="0 0 16 512"><rect width="16" height="512" fill="#0a0"/></svg>"##,
    );
    add_artwork(
        &mut v,
        "valid-offset-viewbox-origin",
        r##"<svg xmlns="http://www.w3.org/2000/svg" viewBox="100 200 64 64"><rect x="100" y="200" width="64" height="64" fill="#0a0"/></svg>"##,
    );
    add_artwork(
        &mut v,
        "valid-nested-svg",
        r##"<svg xmlns="http://www.w3.org/2000/svg" viewBox="0 0 64 64"><svg x="0" y="0" width="64" height="64" viewBox="0 0 32 32"><rect width="32" height="32" fill="#0a0"/></svg></svg>"##,
    );
    v
}

/// Everything here is valid, and must render.
pub proof fn valid_documents_must_render(i: int)
    requires
        0 <= i < valid_list().len(),
    ensures
        valid_list().len() == 12,
        valid_list()[i].expect == Expect::RealRender,
{
}

} // verus!
