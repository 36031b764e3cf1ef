//! The downtime window: when an outage began, when it ended, and its
//! renderings for the log.
use vstd::prelude::*;
use vstd::string::*;
use crate::clock::{local_rfc2822, now_epoch_seconds, RFC2822_MAX_EPOCH, RFC2822_MIN_EPOCH};
use crate::text::{push_int, span_text, span_words, int_text};

verus! {

/// A span of whole seconds (negative where the clock went backwards).
#[derive(Clone, Copy, PartialEq, Eq, Structural, Debug)]
pub struct Span {
    pub seconds: i64,
}

/// Human-readable rendering of a span of time.
pub trait DurationFormat {
    spec fn text_spec(&self) -> Seq<char>;

    fn as_text(&self) -> (r: String)
        ensures
            r@ == self.text_spec(),
    ;
}

impl DurationFormat for Span {
    open spec fn text_spec(&self) -> Seq<char> {
        span_words(self.seconds as int)
    }

    fn as_text(&self) -> (r: String) {
        span_text(self.seconds)
    }
}

/// One downtime window, in epoch seconds. `end` is only ever set once
/// `start` is, and `is_started` records that `start` was set.
#[derive(Clone, Copy, PartialEq, Eq, Structural, Debug)]
pub struct ConnectivityDown {
    pub start: Option<i64>,
    pub end: Option<i64>,
    pub is_started: bool,
}

/// Epoch seconds that chrono renders in RFC 2822 form in every time zone.
pub open spec fn in_render_range(t: i64) -> bool {
    RFC2822_MIN_EPOCH <= t <= RFC2822_MAX_EPOCH
}

/// The closed-window text block handed to the plain-text log.
pub open spec fn report_words(start: i64, start_text: Seq<char>, end: i64, end_text: Seq<char>) -> Seq<char> {
    "Downtime:\n ("@ + int_text(start as int) + ") "@ + start_text + " - ("@
        + int_text(end as int) + ") "@ + end_text + "\n lasted for: "@
        + span_words(end - start) + "\n"@
}

impl ConnectivityDown {
    pub open spec fn wf(&self) -> bool {
        &&& self.end.is_some() ==> self.start.is_some()
        &&& self.is_started == self.start.is_some()
    }

    pub open spec fn ready(&self) -> bool {
        self.start.is_some() && self.end.is_some()
    }

    /// The window length in seconds; meaningful only when ready.
    pub open spec fn span(&self) -> int {
        self.end.unwrap() - self.start.unwrap()
    }

    /// A window that is ready and whose length fits an `i64`.
    pub open spec fn printable(&self) -> bool {
        &&& self.ready()
        &&& i64::MIN <= self.span() <= i64::MAX
    }

    /// True when the window is ready and its length fits an `i64`.
    pub fn is_printable(&self) -> (r: bool)
        ensures
            r == self.printable(),
    {
        match (self.start, self.end) {
            (Some(s), Some(e)) => {
                if s >= 0 {
                    e >= i64::MIN + s
                } else {
                    e <= i64::MAX + s
                }
            },
            _ => false,
        }
    }

    /// An empty window: nothing started, nothing ended.
    pub fn new() -> (r: Self)
        ensures
            r.start.is_none(),
            r.end.is_none(),
            !r.is_started,
            r.wf(),
    {
        ConnectivityDown { start: None, end: None, is_started: false }
    }

    /// True exactly when both ends of the window are set.
    pub fn is_ready(&self) -> (r: bool)
        ensures
            r == self.ready(),
    {
        if self.start.is_none() {
            return false;
        }
        if self.end.is_none() {
            return false;
        }
        true
    }

    pub fn is_started(&self) -> (r: bool)
        ensures
            r == self.is_started,
    {
        self.is_started
    }

    /// Opens the window at epoch second `t`; a no-op once started.
    pub fn start_at(&mut self, t: i64)
        ensures
            old(self).start.is_none() ==> *final(self) == (ConnectivityDown {
                start: Some(t),
                end: old(self).end,
                is_started: true,
            }),
            old(self).start.is_some() ==> *final(self) == *old(self),
            old(self).wf() ==> final(self).wf(),
    {
        if self.start.is_none() {
            self.start = Some(t);
            self.is_started = true;
        }
    }

    /// Opens the window now; a no-op once started.
    pub fn start(&mut self)
        ensures
            old(self).start.is_none() ==> final(self).start.is_some() && final(self).is_started
                && final(self).end == old(self).end,
            old(self).start.is_some() ==> *final(self) == *old(self),
            old(self).wf() ==> final(self).wf(),
    {
        if self.start.is_none() {
            let t = now_epoch_seconds();
            self.start_at(t);
        }
    }

    /// Closes the window at epoch second `t`; a no-op once ended, and on a
    /// window that never started.
    pub fn end_at(&mut self, t: i64)
        ensures
            old(self).start.is_some() && old(self).end.is_none() ==> *final(self) == (
            ConnectivityDown { end: Some(t), ..*old(self) }),
            old(self).start.is_none() || old(self).end.is_some() ==> *final(self) == *old(self),
            old(self).wf() ==> final(self).wf(),
    {
        if self.start.is_some() && self.end.is_none() {
            self.end = Some(t);
        }
    }

    /// Closes the window now; a no-op once ended, and on a window that never
    /// started.
    pub fn end(&mut self)
        ensures
            old(self).start.is_some() && old(self).end.is_none() ==> final(self).end.is_some()
                && final(self).start == old(self).start && final(self).is_started
                == old(self).is_started,
            old(self).start.is_none() || old(self).end.is_some() ==> *final(self) == *old(self),
            old(self).wf() ==> final(self).wf(),
    {
        if self.start.is_some() && self.end.is_none() {
            let t = now_epoch_seconds();
            self.end_at(t);
        }
    }

    /// How long the window lasted.
    pub fn duration(&self) -> (r: Span)
        requires
            self.printable(),
        ensures
            r.seconds == self.span(),
    {
        let s = self.start.unwrap();
        let e = self.end.unwrap();
        Span { seconds: e - s }
    }

    pub fn start_epoch_timestamp(&self) -> (r: i64)
        requires
            self.start.is_some(),
        ensures
            r == self.start.unwrap(),
    {
        self.start.unwrap()
    }

    pub fn end_epoch_timestamp(&self) -> (r: i64)
        requires
            self.end.is_some(),
        ensures
            r == self.end.unwrap(),
    {
        self.end.unwrap()
    }

    /// `"{H} hours, {M} minutes, {S} seconds"` for the window's length.
    pub fn duration_text(&self) -> (r: String)
        requires
            self.printable(),
        ensures
            r@ == span_words(self.span()),
    {
        let v = self.duration();
        v.as_text()
    }

    /// The start in local RFC 2822 form, where the clock's time zone gives one.
    pub fn start_text(&self) -> (r: Option<String>)
        requires
            self.start.is_some(),
        ensures
            r is Some <==> in_render_range(self.start.unwrap()),
    {
        let s = self.start.unwrap();
        if RFC2822_MIN_EPOCH <= s && s <= RFC2822_MAX_EPOCH {
            local_rfc2822(s)
        } else {
            None
        }
    }

    /// The end in local RFC 2822 form, where the clock's time zone gives one.
    pub fn end_text(&self) -> (r: Option<String>)
        requires
            self.end.is_some(),
        ensures
            r is Some <==> in_render_range(self.end.unwrap()),
    {
        let e = self.end.unwrap();
        if RFC2822_MIN_EPOCH <= e && e <= RFC2822_MAX_EPOCH {
            local_rfc2822(e)
        } else {
            None
        }
    }

    /// `"{start} - {end}"` in local RFC 2822 form, where both can be rendered.
    pub fn start_end_text(&self) -> (r: Option<String>)
        requires
            self.ready(),
        ensures
            r is Some <==> in_render_range(self.start.unwrap()) && in_render_range(
                self.end.unwrap(),
            ),
    {
        match (self.start_text(), self.end_text()) {
            (Some(s), Some(e)) => Some(join_range(s, e.as_str())),
            _ => None,
        }
    }

    /// The log's text block for this window, given the rendered ends.
    pub fn report_with(&self, start_text: &str, end_text: &str) -> (r: String)
        requires
            self.printable(),
        ensures
            r@ == report_words(self.start.unwrap(), start_text@, self.end.unwrap(), end_text@),
    {
        proof {
            reveal_strlit("Downtime:\n (");
            reveal_strlit(") ");
            reveal_strlit(" - (");
            reveal_strlit("\n lasted for: ");
            reveal_strlit("\n");
        }
        let s = self.start.unwrap();
        let e = self.end.unwrap();
        let mut r = String::from_str("Downtime:\n (");
        push_int(&mut r, s);
        r.append(") ");
        r.append(start_text);
        r.append(" - (");
        push_int(&mut r, e);
        r.append(") ");
        r.append(end_text);
        r.append("\n lasted for: ");
        let d = self.duration_text();
        r.append(d.as_str());
        r.append("\n");
        assert(r@ =~= report_words(s, start_text@, e, end_text@));
        r
    }

    /// The log's text block for this window, with both ends in local
    /// RFC 2822 form; `None` where either end cannot be rendered.
    pub fn report_text(&self) -> (r: Option<String>)
        requires
            self.printable(),
        ensures
            r matches Some(t) ==> exists|a: Seq<char>, b: Seq<char>| t@ == report_words(
                self.start.unwrap(),
                a,
                self.end.unwrap(),
                b,
            ),
            r is Some <==> in_render_range(self.start.unwrap()) && in_render_range(
                self.end.unwrap(),
            ),
    {
        match (self.start_text(), self.end_text()) {
            (Some(a), Some(b)) => Some(self.report_with(a.as_str(), b.as_str())),
            _ => None,
        }
    }
}

/// `"{a} - {b}"`.
pub fn join_range(a: String, b: &str) -> (r: String)
    ensures
        r@ == a@ + " - "@ + b@,
{
    proof {
        reveal_strlit(" - ");
    }
    let mut r = a;
    r.append(" - ");
    r.append(b);
    r
}

/// A window is ready exactly when both ends are set, and only a ready window
/// has a duration; a well-formed window never has an end without a start.
pub proof fn lemma_ready_iff_both_ends(w: ConnectivityDown)
    ensures
        w.ready() <==> (w.start is Some && w.end is Some),
        w.printable() ==> w.ready(),
        w.wf() && w.end is Some ==> w.start is Some && w.is_started,
{
}
} // verus!
