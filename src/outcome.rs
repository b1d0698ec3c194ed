//! What a single probe found, and the text that explains a dead link.
use vstd::prelude::*;

verus! {

/// The classification of one probe of one target.
#[derive(Debug, Clone)]
pub enum ProbeOutcome {
    /// A success status (2xx) came back.
    Healthy,
    /// Some other status came back.
    Dead(u16),
    /// No status came back: transport error, timeout, refused connection.
    Failed(String),
}

/// The mathematical form of a [`ProbeOutcome`].
pub enum OutcomeView {
    Healthy,
    Dead(u16),
    Failed(Seq<char>),
}

impl View for ProbeOutcome {
    type V = OutcomeView;

    open spec fn view(&self) -> OutcomeView {
        match self {
            ProbeOutcome::Healthy => OutcomeView::Healthy,
            ProbeOutcome::Dead(code) => OutcomeView::Dead(*code),
            ProbeOutcome::Failed(e) => OutcomeView::Failed(e@),
        }
    }
}

/// A status counts as success when it lies in 200..=299.
pub open spec fn is_success_status(code: u16) -> bool {
    200 <= code && code < 300
}

/// The outcome owed to a probe that returned `response`: a status code, or
/// the description of why no status came back.
pub open spec fn classified(response: Result<u16, Seq<char>>) -> OutcomeView {
    match response {
        Ok(code) => if is_success_status(code) {
            OutcomeView::Healthy
        } else {
            OutcomeView::Dead(code)
        },
        Err(e) => OutcomeView::Failed(e),
    }
}

/// Classifies the response to one probe.
pub fn classify_response(response: Result<u16, String>) -> (r: ProbeOutcome)
    ensures
        r@ == classified(
            match response {
                Ok(code) => Ok(code),
                Err(e) => Err(e@),
            },
        ),
{
    match response {
        Ok(code) => if 200 <= code && code < 300 {
            ProbeOutcome::Healthy
        } else {
            ProbeOutcome::Dead(code)
        },
        Err(e) => ProbeOutcome::Failed(e),
    }
}

/// The character of a decimal digit.
pub open spec fn digit_char(d: nat) -> char {
    if d == 0 {
        '0'
    } else if d == 1 {
        '1'
    } else if d == 2 {
        '2'
    } else if d == 3 {
        '3'
    } else if d == 4 {
        '4'
    } else if d == 5 {
        '5'
    } else if d == 6 {
        '6'
    } else if d == 7 {
        '7'
    } else if d == 8 {
        '8'
    } else {
        '9'
    }
}

/// The decimal digits of `n`, most significant first, without leading zeros.
pub open spec fn decimal(n: nat) -> Seq<char>
    decreases n,
{
    if n < 10 {
        seq![digit_char(n)]
    } else {
        decimal(n / 10).push(digit_char(n % 10))
    }
}

fn digit_text(d: u16) -> (r: &'static str)
    requires
        d < 10,
    ensures
        r@ == seq![digit_char(d as nat)],
{
    proof {
        reveal_strlit("0");
        reveal_strlit("1");
        reveal_strlit("2");
        reveal_strlit("3");
        reveal_strlit("4");
        reveal_strlit("5");
        reveal_strlit("6");
        reveal_strlit("7");
        reveal_strlit("8");
        reveal_strlit("9");
    }
    if d == 0 {
        "0"
    } else if d == 1 {
        "1"
    } else if d == 2 {
        "2"
    } else if d == 3 {
        "3"
    } else if d == 4 {
        "4"
    } else if d == 5 {
        "5"
    } else if d == 6 {
        "6"
    } else if d == 7 {
        "7"
    } else if d == 8 {
        "8"
    } else {
        "9"
    }
}

fn append_decimal(s: &mut String, n: u16)
    ensures
        final(s)@ == old(s)@ + decimal(n as nat),
    decreases n,
{
    if n >= 10 {
        append_decimal(s, n / 10);
    }
    s.append(digit_text(n % 10));
    proof {
        if n >= 10 {
            assert(decimal(n as nat) == decimal((n / 10) as nat).push(digit_char((n % 10) as nat)));
        }
    }
}

/// The reason reported for a link that answered with a non-success status.
pub open spec fn status_reason(code: u16) -> Seq<char> {
    "Dead (Status: "@ + decimal(code as nat) + ")"@
}

/// Writes the reason reported for a link that answered with status `code`,
/// for example `Dead (Status: 404)`.
pub fn dead_status_reason(code: u16) -> (r: String)
    ensures
        r@ == status_reason(code),
{
    let mut s = String::from_str("Dead (Status: ");
    append_decimal(&mut s, code);
    s.append(")");
    s
}

/// The reason under which an outcome is reported, if it is reported at all.
/// A failed probe is reported only when `include_failed` is set.
pub open spec fn reported_reason(outcome: OutcomeView, include_failed: bool) -> Option<Seq<char>> {
    match outcome {
        OutcomeView::Healthy => None,
        OutcomeView::Dead(code) => Some(status_reason(code)),
        OutcomeView::Failed(e) => if include_failed {
            Some(e)
        } else {
            None
        },
    }
}

/// The reason under which `outcome` is reported, or `None` when it is not.
pub fn report_reason(outcome: &ProbeOutcome, include_failed: bool) -> (r: Option<String>)
    ensures
        r.deep_view() == reported_reason(outcome@, include_failed),
{
    match outcome {
        ProbeOutcome::Healthy => None,
        ProbeOutcome::Dead(code) => Some(dead_status_reason(*code)),
        ProbeOutcome::Failed(e) => if include_failed {
            Some(e.clone())
        } else {
            None
        },
    }
}

} // verus!
