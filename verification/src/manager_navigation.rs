//! Where the management tool opens when it is started for a pending
//! navigation: only the settings page, optionally at its step-by-step
//! section, is accepted.
use vstd::prelude::*;
use crate::text::{chars_of, string_from, extend_str, str_eq, opt_view};

verus! {

/// A page (and section) the management tool should open.
#[derive(Debug, Clone, PartialEq, Eq)]
pub struct ManagerNavigationIntent {
    pub page: String,
    pub section: Option<String>,
}

/// `validate(navigation)`: the settings page, with no section or the
/// `stepwise` section.
pub open spec fn navigation_supported(page: Seq<char>, section: Option<Seq<char>>) -> bool {
    page == "settings"@ && match section {
        None => true,
        Some(s) => s == "stepwise"@,
    }
}

/// A navigation target that is not supported.
#[derive(Debug, Clone, PartialEq, Eq)]
pub struct UnsupportedNavigation {
    pub page: String,
    pub section: String,
}

impl UnsupportedNavigation {
    pub fn message(&self) -> (r: String)
        ensures
            r@ == "不支持的管理工具导航："@ + self.page@ + "/"@ + self.section@,
    {
        let mut v = chars_of("不支持的管理工具导航：");
        extend_str(&mut v, self.page.as_str());
        extend_str(&mut v, "/");
        extend_str(&mut v, self.section.as_str());
        string_from(&v)
    }
}

/// Checks a navigation target; the error names the page and the section
/// (empty when there is none).
pub fn validate(navigation: &ManagerNavigationIntent) -> (r: Result<(), UnsupportedNavigation>)
    ensures
        r is Ok <==> navigation_supported(navigation.page@, opt_view(navigation.section)),
        r matches Err(e) ==> e.page@ == navigation.page@ && e.section@ == match navigation.section {
            Some(s) => s@,
            None => Seq::empty(),
        },
{
    let supported = str_eq(navigation.page.as_str(), "settings") && match &navigation.section {
        None => true,
        Some(s) => str_eq(s.as_str(), "stepwise"),
    };
    if supported {
        Ok(())
    } else {
        Err(
            UnsupportedNavigation {
                page: navigation.page.clone(),
                section: match &navigation.section {
                    Some(s) => s.clone(),
                    None => String::new(),
                },
            },
        )
    }
}

/// Whether a pending navigation read back from disk is the one a failed
/// launch saved (only then is it removed).
pub fn same_navigation(a: &ManagerNavigationIntent, b: &ManagerNavigationIntent) -> (r: bool)
    ensures
        r == (a.page@ == b.page@ && opt_view(a.section) == opt_view(b.section)),
{
    str_eq(a.page.as_str(), b.page.as_str()) && match (&a.section, &b.section) {
        (None, None) => true,
        (Some(x), Some(y)) => str_eq(x.as_str(), y.as_str()),
        _ => false,
    }
}

} // verus!
