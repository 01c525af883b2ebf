//! Choosing the Chrome DevTools Protocol target to inject into.
//!
//! Injection (and the relaxed content security policy that comes with it)
//! only ever reaches a target chosen here: a page with a debugger URL, and for
//! the Codex variant a page whose title or URL names Codex.
use vstd::prelude::*;
use crate::text::{chars_of, extend_str, lower_chars, contains_str, contains_seq, lower_seq,
    chars_eq_str};

verus! {

/// A debugging target listed by the DevTools HTTP endpoint.
#[derive(Clone, Debug, PartialEq, Eq)]
pub struct CdpTarget {
    pub id: String,
    pub target_type: String,
    pub title: String,
    pub url: String,
    pub web_socket_debugger_url: Option<String>,
}

/// Why no target was chosen.
#[derive(Clone, Debug, PartialEq, Eq, Structural)]
pub enum CdpError {
    NoInjectablePage,
    NoInjectableCodexPage,
}

impl CdpError {
    pub fn message(&self) -> (r: String)
        ensures
            *self == CdpError::NoInjectablePage ==> r@ == "No injectable page target found"@,
            *self == CdpError::NoInjectableCodexPage ==> r@
                == "No injectable Codex page target found"@,
    {
        match self {
            CdpError::NoInjectablePage => crate::text::owned("No injectable page target found"),
            CdpError::NoInjectableCodexPage => crate::text::owned(
                "No injectable Codex page target found",
            ),
        }
    }
}

/// A page with a non-empty debugger WebSocket URL.
pub open spec fn injectable(t: CdpTarget) -> bool {
    t.target_type@ == "page"@ && match t.web_socket_debugger_url {
        Some(u) => u@.len() > 0,
        None => false,
    }
}

/// A page whose title or URL mentions Codex, in any letter case.
///
/// Letters are compared after ASCII lower-casing: no character outside ASCII
/// lower-cases to one of the letters of `codex`, so this is the same test as
/// after full Unicode lower-casing.
pub open spec fn codex_page(t: CdpTarget) -> bool {
    t.target_type@ == "page"@ && contains_seq(lower_seq(t.title@ + " "@ + t.url@), "codex"@)
}

pub open spec fn codex_candidate(t: CdpTarget) -> bool {
    injectable(t) && codex_page(t)
}

/// Whether a target can be injected into.
pub fn is_injectable_page_target(target: &CdpTarget) -> (r: bool)
    ensures
        r == injectable(*target),
{
    let kind = chars_of(target.target_type.as_str());
    if !chars_eq_str(&kind, "page") {
        return false;
    }
    match &target.web_socket_debugger_url {
        Some(u) => u.as_str().unicode_len() > 0,
        None => false,
    }
}

/// Whether a target is a Codex page.
pub fn is_codex_page_target(target: &CdpTarget) -> (r: bool)
    ensures
        r == codex_page(*target),
{
    let kind = chars_of(target.target_type.as_str());
    if !chars_eq_str(&kind, "page") {
        return false;
    }
    let mut haystack = chars_of(target.title.as_str());
    extend_str(&mut haystack, " ");
    extend_str(&mut haystack, target.url.as_str());
    let lowered = lower_chars(&haystack);
    contains_str(&lowered, "codex")
}

fn copy_target(t: &CdpTarget) -> (r: CdpTarget)
    ensures
        r == *t,
{
    CdpTarget {
        id: t.id.clone(),
        target_type: t.target_type.clone(),
        title: t.title.clone(),
        url: t.url.clone(),
        web_socket_debugger_url: match &t.web_socket_debugger_url {
            Some(u) => Some(u.clone()),
            None => None,
        },
    }
}

/// The first injectable Codex page.
pub fn pick_injectable_codex_page_target(targets: &[CdpTarget]) -> (r: Result<
    CdpTarget,
    CdpError,
>)
    ensures
        match r {
            Ok(t) => exists|i: int|
                0 <= i < targets@.len() && t == targets@[i] && codex_candidate(targets@[i]) && forall|
                    k: int,
                | 0 <= k < i ==> !codex_candidate(#[trigger] targets@[k]),
            Err(e) => e == CdpError::NoInjectableCodexPage && forall|k: int|
                0 <= k < targets@.len() ==> !codex_candidate(#[trigger] targets@[k]),
        },
{
    let mut i: usize = 0;
    while i < targets.len()
        invariant
            i <= targets@.len(),
            forall|k: int| 0 <= k < i ==> !codex_candidate(#[trigger] targets@[k]),
        decreases targets.len() - i,
    {
        if is_injectable_page_target(&targets[i]) && is_codex_page_target(&targets[i]) {
            return Ok(copy_target(&targets[i]));
        }
        i = i + 1;
    }
    Err(CdpError::NoInjectableCodexPage)
}

/// The first injectable Codex page, or else the first injectable page.
pub fn pick_page_target(targets: &[CdpTarget]) -> (r: Result<CdpTarget, CdpError>)
    ensures
        (exists|i: int| 0 <= i < targets@.len() && codex_candidate(#[trigger] targets@[i]))
            ==> exists|i: int|
            0 <= i < targets@.len() && r == Ok::<CdpTarget, CdpError>(targets@[i])
                && codex_candidate(targets@[i]) && forall|k: int|
                0 <= k < i ==> !codex_candidate(#[trigger] targets@[k]),
        (forall|i: int| 0 <= i < targets@.len() ==> !codex_candidate(#[trigger] targets@[i]))
            && (exists|i: int| 0 <= i < targets@.len() && injectable(#[trigger] targets@[i]))
            ==> exists|i: int|
            0 <= i < targets@.len() && r == Ok::<CdpTarget, CdpError>(targets@[i]) && injectable(
                targets@[i],
            ) && forall|k: int| 0 <= k < i ==> !injectable(#[trigger] targets@[k]),
        (forall|i: int| 0 <= i < targets@.len() ==> !injectable(#[trigger] targets@[i])) ==> r
            == Err::<CdpTarget, CdpError>(CdpError::NoInjectablePage),
{
    let mut first_page: Option<usize> = None;
    let mut i: usize = 0;
    while i < targets.len()
        invariant
            i <= targets@.len(),
            forall|k: int| 0 <= k < i ==> !codex_candidate(#[trigger] targets@[k]),
            match first_page {
                Some(j) => j < i && injectable(targets@[j as int]) && forall|k: int|
                    0 <= k < j ==> !injectable(#[trigger] targets@[k]),
                None => forall|k: int| 0 <= k < i ==> !injectable(#[trigger] targets@[k]),
            },
        decreases targets.len() - i,
    {
        if is_injectable_page_target(&targets[i]) {
            if first_page.is_none() {
                first_page = Some(i);
            }
            if is_codex_page_target(&targets[i]) {
                return Ok(copy_target(&targets[i]));
            }
        }
        i = i + 1;
    }
    match first_page {
        Some(j) => Ok(copy_target(&targets[j])),
        None => Err(CdpError::NoInjectablePage),
    }
}

} // verus!
