//! Classification and decoding of the lines that the device sends.
use vstd::prelude::*;
use crate::text::{
    is_digit, digit_value, digit_char, decimal, char_digit, starts_with, slice_to_string,
    lemma_single_digit,
};
use crate::protocol::{
    SystemTime, DailyEvent, CustomEvent, ReplyKey, Reply, ReplyView, daily_view, custom_view,
    time_set_command, output_set_command,
};

verus! {

/// A decoded inbound line.
pub enum Frame {
    /// A solicited reply, to be handed to the oldest waiter under its key.
    Reply(ReplyKey, Reply),
    /// An unsolicited all-inputs push: one state per input.
    Inputs(Vec<u32>),
    /// A line that carries nothing for the session.
    Other,
    /// A line that matched a known prefix but whose fields did not decode.
    Malformed,
}

/// The mathematical content of a decoded line.
pub ghost enum FrameView {
    Reply(ReplyKey, ReplyView),
    Inputs(Seq<u32>),
    Other,
    Malformed,
}

impl View for Frame {
    type V = FrameView;

    open spec fn view(&self) -> FrameView {
        match self {
            Frame::Reply(k, r) => FrameView::Reply(*k, r@),
            Frame::Inputs(v) => FrameView::Inputs(v@),
            Frame::Other => FrameView::Other,
            Frame::Malformed => FrameView::Malformed,
        }
    }
}

/// The length of a time reply: a 6-character prefix, a 19-character
/// `YYYY-MM-DD HH:MM:SS` date-time, a space and the day-of-week digit.
pub const TIME_REPLY_LEN: usize = 27;

pub open spec fn has_prefix(l: Seq<char>, p: Seq<char>) -> bool {
    p.len() <= l.len() && l.subrange(0, p.len() as int) == p
}

/// The comma-separated fields of `s`, in order; there is always at least one.
pub open spec fn comma_fields(s: Seq<char>) -> Seq<Seq<char>>
    decreases s.len(),
{
    if s.len() == 0 {
        seq![Seq::<char>::empty()]
    } else {
        let rest = comma_fields(s.drop_last());
        if s.last() == ',' {
            rest.push(Seq::<char>::empty())
        } else {
            rest.update(rest.len() - 1, rest.last().push(s.last()))
        }
    }
}

/// A field of the shape `<text> <digit>` with non-empty text, split into the
/// text and the digit's value.
pub open spec fn entry_of(f: Seq<char>) -> Option<(Seq<char>, u32)> {
    if f.len() >= 3 && is_digit(f.last()) && f[f.len() - 2] == ' ' {
        Some((f.subrange(0, f.len() - 2), digit_value(f.last())))
    } else {
        None
    }
}

/// The entries among `fs`, in order; fields of another shape are skipped.
pub open spec fn entries(fs: Seq<Seq<char>>) -> Seq<(Seq<char>, u32)>
    decreases fs.len(),
{
    if fs.len() == 0 {
        Seq::empty()
    } else {
        match entry_of(fs.last()) {
            Some(e) => entries(fs.drop_last()).push(e),
            None => entries(fs.drop_last()),
        }
    }
}

/// The leading digit of each field, or `None` if some field does not start with one.
pub open spec fn input_states(fs: Seq<Seq<char>>) -> Option<Seq<u32>>
    decreases fs.len(),
{
    if fs.len() == 0 {
        Some(Seq::empty())
    } else {
        match input_states(fs.drop_last()) {
            Some(v) => {
                let f = fs.last();
                if f.len() > 0 && is_digit(f[0]) {
                    Some(v.push(digit_value(f[0])))
                } else {
                    None
                }
            },
            None => None,
        }
    }
}

/// What a line means, by prefix in the order `+TIMESW`, `+TIME`, `+OCCH_ALL`, `+STACH`.
pub open spec fn parse_spec(l: Seq<char>) -> FrameView {
    if has_prefix(l, "+TIMESW"@) {
        if l.len() > 10 && is_digit(l[8]) && is_digit(l[10]) {
            let n = digit_value(l[8]) as usize;
            let mode = digit_value(l[10]);
            let found = entries(comma_fields(l.subrange(11, l.len() as int)));
            if mode == 1 {
                FrameView::Reply(ReplyKey::DailySchedule(n), ReplyView::DailySchedule(found))
            } else if mode == 3 {
                FrameView::Reply(ReplyKey::CustomSchedule(n), ReplyView::CustomSchedule(found))
            } else {
                FrameView::Other
            }
        } else {
            FrameView::Malformed
        }
    } else if has_prefix(l, "+TIME"@) {
        if l.len() == TIME_REPLY_LEN && l[25] == ' ' && is_digit(l[26]) {
            FrameView::Reply(
                ReplyKey::Time,
                ReplyView::Time(l.subrange(6, 25), digit_value(l[26]) as u8),
            )
        } else {
            FrameView::Malformed
        }
    } else if has_prefix(l, "+OCCH_ALL"@) {
        if l.len() >= 10 {
            match input_states(comma_fields(l.subrange(10, l.len() as int))) {
                Some(v) => FrameView::Inputs(v),
                None => FrameView::Malformed,
            }
        } else {
            FrameView::Malformed
        }
    } else if has_prefix(l, "+STACH"@) {
        if l.len() > 8 && is_digit(l[6]) && is_digit(l[8]) {
            FrameView::Reply(
                ReplyKey::Output(digit_value(l[6]) as usize),
                ReplyView::Output(digit_value(l[8])),
            )
        } else {
            FrameView::Malformed
        }
    } else {
        FrameView::Other
    }
}

proof fn lemma_fields_nonempty(s: Seq<char>)
    ensures
        comma_fields(s).len() >= 1,
    decreases s.len(),
{
    if s.len() > 0 {
        lemma_fields_nonempty(s.drop_last());
    }
}

/// How the fields of a prefix grow by one more character.
proof fn lemma_fields_step(s: Seq<char>, i: int)
    requires
        0 <= i < s.len(),
    ensures
        comma_fields(s.subrange(0, i + 1)) == (if s[i] == ',' {
            comma_fields(s.subrange(0, i)).push(Seq::<char>::empty())
        } else {
            comma_fields(s.subrange(0, i)).update(
                comma_fields(s.subrange(0, i)).len() - 1,
                comma_fields(s.subrange(0, i)).last().push(s[i]),
            )
        }),
{
    assert(s.subrange(0, i + 1).drop_last() =~= s.subrange(0, i));
}

/// The entry in `line[start..end]`, if that field has the shape `<text> <digit>`.
fn field_entry(line: &str, start: usize, end: usize) -> (r: Option<DailyEvent>)
    requires
        start <= end <= line@.len(),
    ensures
        match r {
            Some(e) => entry_of(line@.subrange(start as int, end as int)) == Some(e@),
            None => entry_of(line@.subrange(start as int, end as int)) is None,
        },
{
    let ghost f = line@.subrange(start as int, end as int);
    if end - start < 3 {
        return None;
    }
    let digit = char_digit(line.get_char(end - 1));
    match digit {
        Some(d) => {
            if line.get_char(end - 2) != ' ' {
                return None;
            }
            let time = slice_to_string(line, start, end - 2);
            assert(time@ =~= f.subrange(0, f.len() - 2));
            Some(DailyEvent { time, state: d })
        },
        None => None,
    }
}

/// The entries of the comma-separated fields of `line[from..]`.
fn parse_entries(line: &str, from: usize) -> (r: Vec<DailyEvent>)
    requires
        from <= line@.len(),
    ensures
        daily_view(r@) == entries(comma_fields(line@.subrange(from as int, line@.len() as int))),
{
    let n = line.unicode_len();
    let ghost rest = line@.subrange(from as int, n as int);
    let mut out: Vec<DailyEvent> = Vec::new();
    let mut start: usize = from;
    let mut i: usize = from;
    proof {
        assert(rest.subrange(0, 0) =~= Seq::<char>::empty());
    }
    while i < n
        invariant
            n == line@.len(),
            rest == line@.subrange(from as int, n as int),
            from <= start <= i <= n,
            comma_fields(rest.subrange(0, i - from)).last() == line@.subrange(
                start as int,
                i as int,
            ),
            daily_view(out@) == entries(comma_fields(rest.subrange(0, i - from)).drop_last()),
        decreases n - i,
    {
        let ghost fs = comma_fields(rest.subrange(0, i - from));
        proof {
            lemma_fields_nonempty(rest.subrange(0, i - from));
            lemma_fields_step(rest, i - from);
        }
        let c = line.get_char(i);
        if c == ',' {
            let e = field_entry(line, start, i);
            match e {
                Some(e) => {
                    out.push(e);
                },
                None => {},
            }
            proof {
                assert(fs.push(Seq::<char>::empty()).drop_last() =~= fs);
                assert(daily_view(out@) =~= entries(fs));
            }
            start = i + 1;
            proof {
                assert(line@.subrange(start as int, (i + 1) as int) =~= Seq::<char>::empty());
            }
        } else {
            proof {
                let nf = fs.update(fs.len() - 1, fs.last().push(c));
                assert(nf.drop_last() =~= fs.drop_last());
                assert(line@.subrange(start as int, (i + 1) as int) =~= line@.subrange(
                    start as int,
                    i as int,
                ).push(c));
            }
        }
        i = i + 1;
    }
    let ghost fs = comma_fields(rest.subrange(0, n - from));
    proof {
        assert(rest.subrange(0, n - from) =~= rest);
        lemma_fields_nonempty(rest);
    }
    let e = field_entry(line, start, n);
    match e {
        Some(e) => {
            out.push(e);
        },
        None => {},
    }
    proof {
        assert(daily_view(out@) =~= entries(fs));
    }
    out
}

/// The state that the field `line[start..end]` gives: its leading digit.
fn field_state(line: &str, start: usize, end: usize) -> (r: Option<u32>)
    requires
        start <= end <= line@.len(),
    ensures
        ({
            let f = line@.subrange(start as int, end as int);
            r == (if f.len() > 0 && is_digit(f[0]) {
                Some(digit_value(f[0]))
            } else {
                None::<u32>
            })
        }),
        r is Some ==> r->0 <= 9,
{
    if start < end {
        char_digit(line.get_char(start))
    } else {
        None
    }
}

/// Once a completed field has no leading digit, no longer prefix decodes either.
proof fn lemma_states_stay_bad(s: Seq<char>, k: int)
    requires
        0 <= k <= s.len(),
        input_states(comma_fields(s.subrange(0, k)).drop_last()) is None,
    ensures
        input_states(comma_fields(s)) is None,
    decreases s.len() - k,
{
    let fs = comma_fields(s.subrange(0, k));
    lemma_fields_nonempty(s.subrange(0, k));
    if k == s.len() {
        assert(s.subrange(0, k) =~= s);
    } else {
        lemma_fields_step(s, k);
        if s[k] == ',' {
            assert(fs.push(Seq::<char>::empty()).drop_last() =~= fs);
        } else {
            assert(fs.update(fs.len() - 1, fs.last().push(s[k])).drop_last() =~= fs.drop_last());
        }
        lemma_states_stay_bad(s, k + 1);
    }
}

/// The leading digit of each comma-separated field of `line[from..]`.
fn parse_input_states(line: &str, from: usize) -> (r: Option<Vec<u32>>)
    requires
        from <= line@.len(),
    ensures
        match r {
            Some(v) => input_states(comma_fields(line@.subrange(from as int, line@.len() as int)))
                == Some(v@),
            None => input_states(
                comma_fields(line@.subrange(from as int, line@.len() as int)),
            ) is None,
        },
        r is Some ==> forall|j: int| 0 <= j < r->0@.len() ==> r->0@[j] <= 9,
{
    let n = line.unicode_len();
    let ghost rest = line@.subrange(from as int, n as int);
    let mut out: Vec<u32> = Vec::new();
    let mut start: usize = from;
    let mut i: usize = from;
    proof {
        assert(rest.subrange(0, 0) =~= Seq::<char>::empty());
    }
    while i < n
        invariant
            n == line@.len(),
            rest == line@.subrange(from as int, n as int),
            from <= start <= i <= n,
            comma_fields(rest.subrange(0, i - from)).last() == line@.subrange(
                start as int,
                i as int,
            ),
            input_states(comma_fields(rest.subrange(0, i - from)).drop_last()) == Some(out@),
            forall|j: int| 0 <= j < out@.len() ==> out@[j] <= 9,
        decreases n - i,
    {
        let ghost fs = comma_fields(rest.subrange(0, i - from));
        proof {
            lemma_fields_nonempty(rest.subrange(0, i - from));
            lemma_fields_step(rest, i - from);
        }
        let c = line.get_char(i);
        if c == ',' {
            proof {
                assert(fs.push(Seq::<char>::empty()).drop_last() =~= fs);
            }
            match field_state(line, start, i) {
                Some(d) => {
                    out.push(d);
                },
                None => {
                    proof {
                        lemma_states_stay_bad(rest, i - from + 1);
                    }
                    return None;
                },
            }
            start = i + 1;
            proof {
                assert(line@.subrange(start as int, (i + 1) as int) =~= Seq::<char>::empty());
            }
        } else {
            proof {
                let nf = fs.update(fs.len() - 1, fs.last().push(c));
                assert(nf.drop_last() =~= fs.drop_last());
                assert(line@.subrange(start as int, (i + 1) as int) =~= line@.subrange(
                    start as int,
                    i as int,
                ).push(c));
            }
        }
        i = i + 1;
    }
    proof {
        assert(rest.subrange(0, n - from) =~= rest);
        lemma_fields_nonempty(rest);
    }
    match field_state(line, start, n) {
        Some(d) => {
            out.push(d);
            Some(out)
        },
        None => None,
    }
}

/// The same entries as custom-schedule events.
fn as_custom(v: &Vec<DailyEvent>) -> (r: Vec<CustomEvent>)
    ensures
        custom_view(r@) == daily_view(v@),
{
    let mut out: Vec<CustomEvent> = Vec::new();
    let mut i: usize = 0;
    while i < v.len()
        invariant
            i <= v@.len(),
            out@.len() == i,
            custom_view(out@) == daily_view(v@.subrange(0, i as int)),
        decreases v@.len() - i,
    {
        let ghost before = out@;
        let e = CustomEvent { date_time: v[i].time.clone(), state: v[i].state };
        assert(e@ == v@[i as int]@);
        out.push(e);
        proof {
            let now = v@.subrange(0, i + 1);
            assert(now =~= v@.subrange(0, i as int).push(v@[i as int]));
            assert forall|k: int| 0 <= k < out@.len() implies custom_view(out@)[k] == daily_view(
                now,
            )[k] by {
                if k < before.len() {
                    assert(out@[k] == before[k]);
                    assert(custom_view(before)[k] == daily_view(v@.subrange(0, i as int))[k]);
                    assert(now[k] == v@.subrange(0, i as int)[k]);
                } else {
                    assert(out@[k] == e);
                    assert(now[k] == v@[i as int]);
                }
            }
            assert(custom_view(out@) =~= daily_view(now));
        }
        i = i + 1;
    }
    proof {
        assert(v@.subrange(0, i as int) =~= v@);
    }
    out
}

/// Decodes one line from the device.
pub fn parse_frame(line: &str) -> (r: Frame)
    ensures
        r@ == parse_spec(line@),
        r is Inputs ==> forall|j: int| 0 <= j < r->Inputs_0@.len() ==> r->Inputs_0@[j] <= 9,
{
    let n = line.unicode_len();
    if starts_with(line, "+TIMESW") {
        if n > 10 {
            let out = char_digit(line.get_char(8));
            let mode = char_digit(line.get_char(10));
            match (out, mode) {
                (Some(o), Some(m)) => {
                    let number = o as usize;
                    if m == 1 {
                        let events = parse_entries(line, 11);
                        Frame::Reply(ReplyKey::DailySchedule(number), Reply::DailySchedule(events))
                    } else if m == 3 {
                        let events = as_custom(&parse_entries(line, 11));
                        Frame::Reply(
                            ReplyKey::CustomSchedule(number),
                            Reply::CustomSchedule(events),
                        )
                    } else {
                        Frame::Other
                    }
                },
                _ => Frame::Malformed,
            }
        } else {
            Frame::Malformed
        }
    } else if starts_with(line, "+TIME") {
        if n == TIME_REPLY_LEN && line.get_char(25) == ' ' {
            match char_digit(line.get_char(26)) {
                Some(d) => Frame::Reply(
                    ReplyKey::Time,
                    Reply::Time(
                        SystemTime { date_time: slice_to_string(line, 6, 25), day_of_week: d as u8 },
                    ),
                ),
                None => Frame::Malformed,
            }
        } else {
            Frame::Malformed
        }
    } else if starts_with(line, "+OCCH_ALL") {
        if n >= 10 {
            match parse_input_states(line, 10) {
                Some(v) => Frame::Inputs(v),
                None => Frame::Malformed,
            }
        } else {
            Frame::Malformed
        }
    } else if starts_with(line, "+STACH") {
        if n > 8 {
            match (char_digit(line.get_char(6)), char_digit(line.get_char(8))) {
                (Some(o), Some(st)) => Frame::Reply(ReplyKey::Output(o as usize), Reply::Output(st)),
                _ => Frame::Malformed,
            }
        } else {
            Frame::Malformed
        }
    } else {
        Frame::Other
    }
}

/// The device's reply to a time query: `+TIME:<date-time> <day-of-week>`.
pub open spec fn time_reply(date_time: Seq<char>, day_of_week: u8) -> Seq<char> {
    "+TIME:"@ + date_time + " "@ + decimal(day_of_week as nat)
}

/// The device's reply to a query of output `n`: `+STACH<n>=<s>`.
pub open spec fn output_reply(n: usize, s: u32) -> Seq<char> {
    "+STACH"@ + decimal(n as nat) + "="@ + decimal(s as nat)
}

/// One schedule entry as the device lists it: `<when> <state>`.
pub open spec fn entry_text(e: (Seq<char>, u32)) -> Seq<char> {
    e.0 + " "@ + decimal(e.1 as nat)
}

/// Schedule entries as the device lists them, each behind a comma.
pub open spec fn entries_text(es: Seq<(Seq<char>, u32)>) -> Seq<char>
    decreases es.len(),
{
    if es.len() == 0 {
        Seq::empty()
    } else {
        entries_text(es.drop_last()) + ","@ + entry_text(es.last())
    }
}

/// The device's reply to a daily-schedule query of output `n`.
pub open spec fn daily_reply(n: usize, es: Seq<(Seq<char>, u32)>) -> Seq<char> {
    "+TIMESW:"@ + decimal(n as nat) + ",1"@ + entries_text(es)
}

/// An entry that the device can list: non-empty text without commas and a one-digit state.
pub open spec fn listable(e: (Seq<char>, u32)) -> bool {
    e.0.len() >= 1 && !e.0.contains(',') && e.1 <= 9
}

proof fn lemma_not_prefix(l: Seq<char>, p: Seq<char>, i: int)
    requires
        0 <= i < p.len(),
        i < l.len(),
        l[i] != p[i],
    ensures
        !has_prefix(l, p),
{
    if p.len() <= l.len() {
        assert(l.subrange(0, p.len() as int)[i] != p[i]);
    }
}

proof fn lemma_is_prefix(l: Seq<char>, p: Seq<char>, rest: Seq<char>)
    requires
        l == p + rest,
    ensures
        has_prefix(l, p),
{
    assert(l.subrange(0, p.len() as int) =~= p);
}

proof fn lemma_fields_push_comma(a: Seq<char>)
    ensures
        comma_fields(a + ","@) == comma_fields(a).push(Seq::<char>::empty()),
{
    reveal_strlit(",");
    assert((a + ","@).drop_last() =~= a);
}

proof fn lemma_fields_append_plain(a: Seq<char>, b: Seq<char>)
    requires
        !b.contains(','),
    ensures
        comma_fields(a + b) == comma_fields(a).update(
            comma_fields(a).len() - 1,
            comma_fields(a).last() + b,
        ),
    decreases b.len(),
{
    lemma_fields_nonempty(a);
    let fs = comma_fields(a);
    if b.len() == 0 {
        assert(a + b =~= a);
        assert(fs.last() + b =~= fs.last());
        assert(fs.update(fs.len() - 1, fs.last() + b) =~= fs);
    } else {
        let b2 = b.drop_last();
        assert(!b2.contains(',')) by {
            if b2.contains(',') {
                let i = choose|i: int| 0 <= i < b2.len() && b2[i] == ',';
                assert(b[i] == ',');
            }
        }
        lemma_fields_append_plain(a, b2);
        assert((a + b).drop_last() =~= a + b2);
        assert((a + b).last() == b.last());
        assert(b.last() != ',') by {
            assert(b[b.len() - 1] == b.last());
        }
        assert((fs.last() + b2).push(b.last()) =~= fs.last() + b);
        assert(comma_fields(a + b) =~= fs.update(fs.len() - 1, fs.last() + b));
    }
}

proof fn lemma_entry_text(e: (Seq<char>, u32))
    requires
        listable(e),
    ensures
        entry_of(entry_text(e)) == Some(e),
        !entry_text(e).contains(','),
{
    reveal_strlit(" ");
    lemma_single_digit(e.1 as nat);
    let t = entry_text(e);
    assert(t =~= e.0 + seq![' ', digit_char(e.1 as nat)]);
    assert(t.subrange(0, t.len() - 2) =~= e.0);
    assert(t.last() == digit_char(e.1 as nat));
    if t.contains(',') {
        let i = choose|i: int| 0 <= i < t.len() && t[i] == ',';
        if i < e.0.len() {
            assert(e.0[i] == ',');
        }
    }
}

/// The comma fields of a listing are an empty field followed by one field per entry.
proof fn lemma_entries_decode(es: Seq<(Seq<char>, u32)>)
    requires
        forall|i: int| 0 <= i < es.len() ==> listable(es[i]),
    ensures
        entries(comma_fields(entries_text(es))) == es,
    decreases es.len(),
{
    if es.len() == 0 {
        assert(comma_fields(Seq::<char>::empty()) =~= seq![Seq::<char>::empty()]);
        let one = seq![Seq::<char>::empty()];
        assert(one.drop_last() =~= Seq::<Seq<char>>::empty());
        assert(entries_text(es) == Seq::<char>::empty());
        assert(entry_of(one.last()) is None);
        assert(entries(Seq::<Seq<char>>::empty()) == Seq::<(Seq<char>, u32)>::empty());
        assert(entries(one) == Seq::<(Seq<char>, u32)>::empty());
        assert(entries(comma_fields(entries_text(es))) =~= es);
    } else {
        let front = es.drop_last();
        let e = es.last();
        assert(listable(es[es.len() - 1]));
        lemma_entries_decode(front);
        lemma_entry_text(e);
        let a = entries_text(front) + ","@;
        lemma_fields_push_comma(entries_text(front));
        lemma_fields_append_plain(a, entry_text(e));
        let fs = comma_fields(entries_text(front));
        let gs = fs.push(Seq::<char>::empty());
        assert(Seq::<char>::empty() + entry_text(e) =~= entry_text(e));
        let hs = gs.update(gs.len() - 1, entry_text(e));
        assert(hs =~= fs.push(entry_text(e)));
        assert(entries_text(es) == a + entry_text(e));
        assert(hs.drop_last() =~= fs);
        assert(gs.last() == Seq::<char>::empty());
        assert(gs.last() + entry_text(e) =~= entry_text(e));
        assert(comma_fields(a + entry_text(e)) == hs);
        assert(hs.last() == entry_text(e));
        assert(entries(hs) == entries(fs).push(e));
        assert(es =~= front.push(e));
    }
}

/// What set-time writes is what get-time reads back: set-time carries
/// `<date-time> <day>` after `AT+TIME=`, the device's answer to a time query
/// carries the same after `+TIME:`, and that answer decodes to the same
/// date-time and day.
pub proof fn lemma_time_round_trip(date_time: Seq<char>, day_of_week: u8)
    requires
        date_time.len() == 19,
        day_of_week <= 9,
    ensures
        time_set_command(date_time, day_of_week) == "AT+TIME="@ + time_reply(
            date_time,
            day_of_week,
        ).subrange(6, TIME_REPLY_LEN as int),
        parse_spec(time_reply(date_time, day_of_week)) == FrameView::Reply(
            ReplyKey::Time,
            ReplyView::Time(date_time, day_of_week),
        ),
{
    reveal_strlit("+TIME:");
    reveal_strlit("+TIME");
    reveal_strlit("+TIMESW");
    reveal_strlit(" ");
    lemma_single_digit(day_of_week as nat);
    let l = time_reply(date_time, day_of_week);
    let f = date_time + seq![' ', digit_char(day_of_week as nat)];
    assert(l =~= "+TIME"@ + (seq![':'] + f));
    assert(l.subrange(6, 27) =~= f);
    assert(time_set_command(date_time, day_of_week) =~= "AT+TIME="@ + f);
    lemma_not_prefix(l, "+TIMESW"@, 5);
    lemma_is_prefix(l, "+TIME"@, seq![':'] + f);
    assert(l.subrange(6, 25) =~= date_time);
    assert(l[25] == ' ');
    assert(l[26] == digit_char(day_of_week as nat));
}

/// What set-output writes is what get-output reads back: the device's answer
/// to a query of output `n` in state `s`, which is the set command without its
/// leading `AT`, decodes to `s` under the key of output `n`.
pub proof fn lemma_output_round_trip(n: usize, s: u32)
    requires
        n <= 9,
        s <= 9,
    ensures
        output_set_command(n, s) == "AT"@ + output_reply(n, s),
        parse_spec(output_reply(n, s)) == FrameView::Reply(
            ReplyKey::Output(n),
            ReplyView::Output(s),
        ),
{
    reveal_strlit("AT+STACH");
    reveal_strlit("AT");
    reveal_strlit("+STACH");
    reveal_strlit("+TIME");
    reveal_strlit("+TIMESW");
    reveal_strlit("+OCCH_ALL");
    reveal_strlit("=");
    lemma_single_digit(n as nat);
    lemma_single_digit(s as nat);
    let l = output_reply(n, s);
    assert(output_set_command(n, s) =~= "AT"@ + l);
    assert(l =~= "+STACH"@ + seq![digit_char(n as nat), '=', digit_char(s as nat)]);
    lemma_not_prefix(l, "+TIMESW"@, 1);
    lemma_not_prefix(l, "+TIME"@, 1);
    lemma_not_prefix(l, "+OCCH_ALL"@, 1);
    lemma_is_prefix(l, "+STACH"@, seq![digit_char(n as nat), '=', digit_char(s as nat)]);
}

/// A daily-schedule reply decodes to exactly the entries that the device listed, in order.
pub proof fn lemma_daily_listing(n: usize, es: Seq<(Seq<char>, u32)>)
    requires
        n <= 9,
        forall|i: int| 0 <= i < es.len() ==> listable(es[i]),
    ensures
        parse_spec(daily_reply(n, es)) == FrameView::Reply(
            ReplyKey::DailySchedule(n),
            ReplyView::DailySchedule(es),
        ),
{
    reveal_strlit("+TIMESW:");
    reveal_strlit("+TIMESW");
    reveal_strlit(",1");
    lemma_single_digit(n as nat);
    lemma_single_digit(1);
    let l = daily_reply(n, es);
    let tail = seq![':', digit_char(n as nat), ',', '1'] + entries_text(es);
    assert(l =~= "+TIMESW"@ + tail);
    lemma_is_prefix(l, "+TIMESW"@, tail);
    assert(l[8] == digit_char(n as nat));
    assert(l[10] == '1');
    assert(l.subrange(11, l.len() as int) =~= entries_text(es));
    lemma_entries_decode(es);
}

/// Setting a daily event and reading the schedule back yields a list that
/// holds the event: `AT+TIMESW=<n>,1,<time> <s>` adds the entry `<time> <s>`,
/// and any listing of output `n` that holds it decodes, under the key of
/// output `n`, to a list that holds it.
pub proof fn lemma_daily_round_trip(n: usize, e: (Seq<char>, u32), es: Seq<(Seq<char>, u32)>)
    requires
        n <= 9,
        listable(e),
        es.contains(e),
        forall|i: int| 0 <= i < es.len() ==> listable(es[i]),
    ensures
        match parse_spec(daily_reply(n, es)) {
            FrameView::Reply(
                ReplyKey::DailySchedule(m),
                ReplyView::DailySchedule(got),
            ) => m == n && got.contains(e),
            _ => false,
        },
{
    lemma_daily_listing(n, es);
}

/// After the daily schedule is cleared, reading it back yields an empty list:
/// the device's empty listing `+TIMESW:<n>,1` decodes to no entries.
pub proof fn lemma_daily_cleared(n: usize)
    requires
        n <= 9,
    ensures
        parse_spec(daily_reply(n, Seq::empty())) == FrameView::Reply(
            ReplyKey::DailySchedule(n),
            ReplyView::DailySchedule(Seq::empty()),
        ),
{
    lemma_daily_listing(n, Seq::empty());
}

} // verus!
