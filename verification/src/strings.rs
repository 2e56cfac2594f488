//! The string resolver: the bounded language-fallback protocol that fetches
//! one localized string descriptor.
//!
//! Resolution is a short ladder of control requests: the preferred language
//! first; on failure the supported-languages list; then the first listed
//! language; then US English as the last resort. The requests themselves are
//! I/O, so the resolver is a state machine: it names the next request to
//! perform, the driver loop hands the outcome back, and the machine decides
//! the next round. A string index of zero resolves to nothing at once,
//! without any request.

use vstd::prelude::*;

use crate::FALLBACK_LANG_ID;

verus! {

/// The outcome of one underlying request, handed back by the driver loop.
pub enum StringEvent {
    /// Outcome of a text request: the decoded text, or `None` when the
    /// platform reported failure.
    Text(Option<String>),
    /// Outcome of a supported-languages request: the first supported
    /// language code, or `None` when the platform reported failure.
    Languages(Option<u16>),
}

/// What the resolver asks the driver loop to do next.
pub enum StringAction {
    /// Request the string descriptor at the given language id.
    RequestText(u16),
    /// Request the supported-languages list (language id zero).
    RequestLanguages,
    /// Resolution is over; the result is available.
    Finished,
}

/// Where the ladder stands.
pub enum ResolvePhase {
    /// Round 1: the preferred-language request is outstanding.
    AwaitPreferred,
    /// Round 2: the supported-languages request is outstanding.
    AwaitLanguages,
    /// Round 3: the request at the listed language code is outstanding.
    AwaitObtained(u16),
    /// Round 4: the US-English fallback request is outstanding.
    AwaitFallback,
    /// Resolution is over with this result.
    Done(Option<String>),
}

/// The resolver for one string slot: the slot's string index, the caller's
/// preferred language, the current phase, and how many underlying requests
/// have been issued so far.
pub struct StringResolver {
    pub string_index: u8,
    pub preferred_lang: u16,
    pub phase: ResolvePhase,
    pub requests_made: u8,
}

/// The freshly started resolver: a zero string index is already resolved to
/// `None` with no request; any other index has the round-1 request
/// outstanding.
pub open spec fn resolver_start(string_index: u8, preferred_lang: u16) -> StringResolver {
    StringResolver {
        string_index,
        preferred_lang,
        phase: if string_index == 0 {
            ResolvePhase::Done(None)
        } else {
            ResolvePhase::AwaitPreferred
        },
        requests_made: if string_index == 0 {
            0
        } else {
            1
        },
    }
}

/// The request the resolver is waiting on, or `Finished`.
pub open spec fn resolver_action(s: StringResolver) -> StringAction {
    match s.phase {
        ResolvePhase::AwaitPreferred => StringAction::RequestText(s.preferred_lang),
        ResolvePhase::AwaitLanguages => StringAction::RequestLanguages,
        ResolvePhase::AwaitObtained(lang) => StringAction::RequestText(lang),
        ResolvePhase::AwaitFallback => StringAction::RequestText(FALLBACK_LANG_ID),
        ResolvePhase::Done(_) => StringAction::Finished,
    }
}

/// Whether the event answers the outstanding request.
pub open spec fn resolver_accepts(s: StringResolver, e: StringEvent) -> bool {
    match (s.phase, e) {
        (ResolvePhase::AwaitPreferred, StringEvent::Text(_)) => true,
        (ResolvePhase::AwaitLanguages, StringEvent::Languages(_)) => true,
        (ResolvePhase::AwaitObtained(_), StringEvent::Text(_)) => true,
        (ResolvePhase::AwaitFallback, StringEvent::Text(_)) => true,
        _ => false,
    }
}

/// The ladder's transition: each round's success ends resolution with that
/// round's text; each failure moves to the next round, until the fallback
/// round ends it either way.
pub open spec fn resolver_step_spec(s: StringResolver, e: StringEvent) -> StringResolver {
    match (s.phase, e) {
        (ResolvePhase::AwaitPreferred, StringEvent::Text(Some(t))) => StringResolver {
            phase: ResolvePhase::Done(Some(t)),
            ..s
        },
        (ResolvePhase::AwaitPreferred, StringEvent::Text(None)) => StringResolver {
            phase: ResolvePhase::AwaitLanguages,
            requests_made: (s.requests_made + 1) as u8,
            ..s
        },
        (ResolvePhase::AwaitLanguages, StringEvent::Languages(Some(lang))) => StringResolver {
            phase: ResolvePhase::AwaitObtained(lang),
            requests_made: (s.requests_made + 1) as u8,
            ..s
        },
        (ResolvePhase::AwaitLanguages, StringEvent::Languages(None)) => StringResolver {
            phase: ResolvePhase::Done(None),
            ..s
        },
        (ResolvePhase::AwaitObtained(_), StringEvent::Text(Some(t))) => StringResolver {
            phase: ResolvePhase::Done(Some(t)),
            ..s
        },
        (ResolvePhase::AwaitObtained(_), StringEvent::Text(None)) => StringResolver {
            phase: ResolvePhase::AwaitFallback,
            requests_made: (s.requests_made + 1) as u8,
            ..s
        },
        (ResolvePhase::AwaitFallback, StringEvent::Text(t)) => StringResolver {
            phase: ResolvePhase::Done(t),
            ..s
        },
        _ => s,
    }
}

/// Each phase stands for an exact number of requests issued so far; a
/// finished resolver has issued at most four.
pub open spec fn resolver_wf(s: StringResolver) -> bool {
    match s.phase {
        ResolvePhase::AwaitPreferred => s.requests_made == 1,
        ResolvePhase::AwaitLanguages => s.requests_made == 2,
        ResolvePhase::AwaitObtained(_) => s.requests_made == 3,
        ResolvePhase::AwaitFallback => s.requests_made == 4,
        ResolvePhase::Done(_) => s.requests_made <= 4,
    }
}

/// The result of a finished resolver.
pub open spec fn resolver_result(s: StringResolver) -> Option<String> {
    match s.phase {
        ResolvePhase::Done(t) => t,
        _ => None,
    }
}

impl StringResolver {
    /// Starts resolution of one string slot. A zero index finishes at once
    /// with `None` and no request issued.
    pub fn start(string_index: u8, preferred_lang: u16) -> (r: StringResolver)
        ensures
            r == resolver_start(string_index, preferred_lang),
            resolver_wf(r),
    {
        if string_index == 0 {
            StringResolver {
                string_index,
                preferred_lang,
                phase: ResolvePhase::Done(None),
                requests_made: 0,
            }
        } else {
            StringResolver {
                string_index,
                preferred_lang,
                phase: ResolvePhase::AwaitPreferred,
                requests_made: 1,
            }
        }
    }

    /// The request the resolver is waiting on, or `Finished`.
    pub fn next_action(&self) -> (a: StringAction)
        ensures
            a == resolver_action(*self),
    {
        match self.phase {
            ResolvePhase::AwaitPreferred => StringAction::RequestText(self.preferred_lang),
            ResolvePhase::AwaitLanguages => StringAction::RequestLanguages,
            ResolvePhase::AwaitObtained(lang) => StringAction::RequestText(lang),
            ResolvePhase::AwaitFallback => StringAction::RequestText(FALLBACK_LANG_ID),
            ResolvePhase::Done(_) => StringAction::Finished,
        }
    }

    /// Feeds the outcome of the outstanding request into the ladder.
    pub fn step(self, e: StringEvent) -> (r: StringResolver)
        requires
            resolver_wf(self),
            resolver_accepts(self, e),
        ensures
            r == resolver_step_spec(self, e),
            resolver_wf(r),
    {
        let StringResolver { string_index, preferred_lang, phase, requests_made } = self;
        match (phase, e) {
            (ResolvePhase::AwaitPreferred, StringEvent::Text(Some(t))) => StringResolver {
                string_index,
                preferred_lang,
                phase: ResolvePhase::Done(Some(t)),
                requests_made,
            },
            (ResolvePhase::AwaitPreferred, StringEvent::Text(None)) => StringResolver {
                string_index,
                preferred_lang,
                phase: ResolvePhase::AwaitLanguages,
                requests_made: requests_made + 1,
            },
            (ResolvePhase::AwaitLanguages, StringEvent::Languages(Some(lang))) => StringResolver {
                string_index,
                preferred_lang,
                phase: ResolvePhase::AwaitObtained(lang),
                requests_made: requests_made + 1,
            },
            (ResolvePhase::AwaitLanguages, StringEvent::Languages(None)) => StringResolver {
                string_index,
                preferred_lang,
                phase: ResolvePhase::Done(None),
                requests_made,
            },
            (ResolvePhase::AwaitObtained(_), StringEvent::Text(Some(t))) => StringResolver {
                string_index,
                preferred_lang,
                phase: ResolvePhase::Done(Some(t)),
                requests_made,
            },
            (ResolvePhase::AwaitObtained(_), StringEvent::Text(None)) => StringResolver {
                string_index,
                preferred_lang,
                phase: ResolvePhase::AwaitFallback,
                requests_made: requests_made + 1,
            },
            (ResolvePhase::AwaitFallback, StringEvent::Text(t)) => StringResolver {
                string_index,
                preferred_lang,
                phase: ResolvePhase::Done(t),
                requests_made,
            },
            (phase, _) => StringResolver { string_index, preferred_lang, phase, requests_made },
        }
    }

    /// Whether resolution is over.
    pub fn is_done(&self) -> (r: bool)
        ensures
            r == (self.phase is Done),
    {
        match self.phase {
            ResolvePhase::Done(_) => true,
            _ => false,
        }
    }

    /// Hands the finished resolver's result out.
    pub fn take_result(self) -> (r: Option<String>)
        requires
            self.phase is Done,
        ensures
            r == resolver_result(self),
    {
        match self.phase {
            ResolvePhase::Done(t) => t,
            _ => None,
        }
    }
}

/// The text the ladder settles on, given the outcome of each potential
/// round: round 1's text if round 1 succeeded, else nothing if the language
/// list was unavailable, else round 3's text if round 3 succeeded, else
/// round 4's.
pub open spec fn ladder_result(
    r1: Option<String>,
    langs: Option<u16>,
    r3: Option<String>,
    r4: Option<String>,
) -> Option<String> {
    if r1 is Some {
        r1
    } else if langs is None {
        None
    } else if r3 is Some {
        r3
    } else {
        r4
    }
}

/// How many underlying requests the ladder issues for those outcomes.
pub open spec fn ladder_requests(
    r1: Option<String>,
    langs: Option<u16>,
    r3: Option<String>,
) -> int {
    if r1 is Some {
        1
    } else if langs is None {
        2
    } else if r3 is Some {
        3
    } else {
        4
    }
}

/// The whole ladder run for one nonzero string index: each round's outcome
/// is fed in exactly while that round's request is outstanding.
pub open spec fn ladder_run(
    index: u8,
    preferred: u16,
    r1: Option<String>,
    langs: Option<u16>,
    r3: Option<String>,
    r4: Option<String>,
) -> StringResolver {
    let s0 = resolver_start(index, preferred);
    let s1 = resolver_step_spec(s0, StringEvent::Text(r1));
    if r1 is Some {
        s1
    } else {
        let s2 = resolver_step_spec(s1, StringEvent::Languages(langs));
        if langs is None {
            s2
        } else {
            let s3 = resolver_step_spec(s2, StringEvent::Text(r3));
            if r3 is Some {
                s3
            } else {
                resolver_step_spec(s3, StringEvent::Text(r4))
            }
        }
    }
}

/// Law: a zero string index resolves to `None` at once, with no underlying
/// request issued.
pub proof fn lemma_zero_index_resolves_immediately(preferred: u16)
    ensures
        resolver_start(0, preferred).requests_made == 0,
        resolver_result(resolver_start(0, preferred)) is None,
        resolver_action(resolver_start(0, preferred)) is Finished,
{
}

/// Law: for every outcome of the underlying requests, the ladder for a
/// nonzero index finishes after at most four requests — exactly
/// `ladder_requests` of them — and returns the first successful round's
/// text, preferring round 1 over round 3 over round 4.
pub proof fn lemma_resolution_ladder(
    index: u8,
    preferred: u16,
    r1: Option<String>,
    langs: Option<u16>,
    r3: Option<String>,
    r4: Option<String>,
)
    requires
        index != 0,
    ensures
        ladder_run(index, preferred, r1, langs, r3, r4).phase is Done,
        resolver_result(ladder_run(index, preferred, r1, langs, r3, r4)) == ladder_result(
            r1,
            langs,
            r3,
            r4,
        ),
        ladder_run(index, preferred, r1, langs, r3, r4).requests_made == ladder_requests(
            r1,
            langs,
            r3,
        ),
        ladder_requests(r1, langs, r3) <= 4,
{
}

} // verus!
