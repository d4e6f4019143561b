//! What every page's layout shows of the signed-in user, and the shared
//! one-time-code confirmation page.

use vstd::prelude::*;
use crate::models::Role;
use crate::session::CurrentUser;
use crate::text::ascii_lower;

verus! {

/// The user chip in the navigation bar.
#[derive(Clone, Debug)]
pub struct UserChip {
    pub email: String,
    /// Given name, for greetings.
    pub name: String,
    /// Lower-case role label: "customer", "teller" or "admin".
    pub role: String,
}

/// What the base layout needs.
#[derive(Clone, Debug)]
pub struct LayoutCtx {
    pub user: Option<UserChip>,
}

impl LayoutCtx {
    /// The layout for `user`; public pages pass `None`.
    pub fn from_user(user: Option<&CurrentUser>) -> (l: LayoutCtx)
        ensures
            user is None ==> l.user is None,
            user matches Some(u) ==> (l.user matches Some(c) && c.email@ == u.email@ && c.name@
                == u.name@ && c.role@ == ascii_lower(u.role.spec_label())),
    {
        match user {
            None => LayoutCtx { user: None },
            Some(u) => LayoutCtx {
                user: Some(UserChip { email: u.email.clone(), name: u.name.clone(), role: u.role.lower_label() }),
            },
        }
    }

    /// The layout of a public page: nobody signed in.
    pub fn anonymous() -> (l: LayoutCtx)
        ensures
            l.user is None,
    {
        LayoutCtx { user: None }
    }
}

/// The shared "enter your one-time code" page of every code-gated action.
#[derive(Clone, Debug)]
pub struct OtpConfirmPage {
    pub layout: LayoutCtx,
    pub title: String,
    /// (label, value) rows summarising what is about to happen.
    pub summary: Vec<(String, String)>,
    pub action_url: String,
    pub cancel_url: String,
    pub action_id: i64,
    /// The code shown on screen when it was not delivered out of band.
    pub demo_otp: Option<String>,
    pub error: Option<String>,
}

/// The code shown on screen: only when it was not delivered.
pub open spec fn shown_code(otp: Seq<char>, delivered: bool) -> Option<Seq<char>> {
    if delivered {
        None
    } else {
        Some(otp)
    }
}

/// The on-screen code of a challenge: `None` once it went to Telegram.
pub fn demo_code(otp: &String, delivered: bool) -> (r: Option<String>)
    ensures
        match r {
            Some(c) => shown_code(otp@, delivered) == Some(c@),
            None => shown_code(otp@, delivered) is None,
        },
{
    if delivered {
        None
    } else {
        Some(otp.clone())
    }
}

} // verus!
