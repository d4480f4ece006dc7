//! The webhook to which notifications are delivered: reading its address,
//! and how often a delivery is tried.

use vstd::prelude::*;
use crate::text::{
    chars_of, field_bounds, parse_u64, parsed_u64, range_is, skip_leading, split, without_leading,
};

verus! {

/// The number and the token of the webhook at `url`.
///
/// The address is read without its scheme `https://`, in fields between
/// slashes: a host, `api`, `webhooks`, the number in decimal, and the token.
/// Further fields are not looked at.
pub open spec fn webhook_info(url: Seq<char>) -> Option<(u64, Seq<char>)> {
    let parts = split(without_leading(url, "https://"@), '/');
    if parts.len() >= 5 && parts[1] == "api"@ && parts[2] == "webhooks"@ {
        match parsed_u64(parts[3]) {
            Some(id) => Some((id, parts[4])),
            None => None,
        }
    } else {
        None
    }
}

/// Reads the number and the token of a webhook from its address.
pub fn extract_webhook_info(url: &str) -> (r: Option<(u64, &str)>)
    ensures
        match r {
            Some((id, token)) => webhook_info(url@) == Some((id, token@)),
            None => webhook_info(url@) is None,
        },
{
    let chars = chars_of(url);
    let scheme = chars_of("https://");
    let api = chars_of("api");
    let webhooks = chars_of("webhooks");
    let from = skip_leading(&chars, &scheme);
    let bounds = field_bounds(&chars, from, '/');
    if bounds.len() < 5 {
        return None;
    }
    let ghost parts = split(without_leading(url@, "https://"@), '/');
    assert(parts[1] == chars@.subrange(bounds@[1].0 as int, bounds@[1].1 as int));
    assert(parts[2] == chars@.subrange(bounds@[2].0 as int, bounds@[2].1 as int));
    assert(parts[3] == chars@.subrange(bounds@[3].0 as int, bounds@[3].1 as int));
    assert(parts[4] == chars@.subrange(bounds@[4].0 as int, bounds@[4].1 as int));
    if !range_is(&chars, bounds[1].0, bounds[1].1, &api) {
        return None;
    }
    if !range_is(&chars, bounds[2].0, bounds[2].1, &webhooks) {
        return None;
    }
    match parse_u64(&chars, bounds[3].0, bounds[3].1) {
        Some(id) => {
            let token = url.substring_char(bounds[4].0, bounds[4].1);
            Some((id, token))
        },
        None => None,
    }
}

/// How often a delivery is tried before it is given up.
pub const MAX_TRIES: u32 = 5;

/// A delivery under way: how often it has been tried without success.
pub struct Delivery {
    failed: u32,
}

/// What to do with a delivery.
#[derive(Debug, Clone, Copy, PartialEq, Eq, Structural)]
pub enum Attempt {
    /// Send the message, and report how it went.
    Send,
    /// The message has arrived.
    Delivered,
    /// The message has failed `MAX_TRIES` times and is given up.
    GivenUp,
}

impl View for Delivery {
    type V = int;

    closed spec fn view(&self) -> int {
        self.failed as int
    }
}

/// What follows the report of a try, after `failed` tries have failed
/// before: a success ends the delivery; a failure is followed by another try
/// unless it is the last that is allowed.
pub open spec fn after_try(failed: int, arrived: bool) -> (int, Attempt) {
    if arrived {
        (failed, Attempt::Delivered)
    } else if failed + 1 >= MAX_TRIES {
        (MAX_TRIES as int, Attempt::GivenUp)
    } else {
        (failed + 1, Attempt::Send)
    }
}

impl Delivery {
    #[verifier::type_invariant]
    closed spec fn within_tries(self) -> bool {
        self.failed <= MAX_TRIES
    }

    /// A delivery that has not been tried yet. It begins with a try.
    pub fn begin() -> (r: (Delivery, Attempt))
        ensures
            r.0@ == 0,
            r.1 == Attempt::Send,
    {
        (Delivery { failed: 0 }, Attempt::Send)
    }

    /// Takes the outcome of a try: whether the message arrived.
    pub fn report(self, arrived: bool) -> (r: (Delivery, Attempt))
        ensures
            (r.0@, r.1) == after_try(self@, arrived),
    {
        proof {
            use_type_invariant(&self);
        }
        if arrived {
            (self, Attempt::Delivered)
        } else if self.failed >= MAX_TRIES - 1 {
            (Delivery { failed: MAX_TRIES }, Attempt::GivenUp)
        } else {
            (Delivery { failed: self.failed + 1 }, Attempt::Send)
        }
    }
}

/// A message that never arrives is sent exactly `MAX_TRIES` times: each of
/// the first failures asks for another try, and the last gives the delivery
/// up.
pub proof fn lemma_gives_up_after_max_tries(failed: int)
    requires
        0 <= failed < MAX_TRIES,
    ensures
        after_try(failed, false).0 == failed + 1,
        after_try(failed, true) == (failed, Attempt::Delivered),
        failed + 1 < MAX_TRIES ==> after_try(failed, false).1 == Attempt::Send,
        failed + 1 == MAX_TRIES ==> after_try(failed, false).1 == Attempt::GivenUp,
{
}

} // verus!
