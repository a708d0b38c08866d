//! The device's vocabulary: the values that travel on the wire, the keys under
//! which replies are correlated, and the exact text of every outbound command.
use vstd::prelude::*;
use crate::text::{decimal, push_decimal};

verus! {

/// The device clock: a `YYYY-MM-DD HH:MM:SS` date-time and a day-of-week digit.
pub struct SystemTime {
    pub date_time: String,
    pub day_of_week: u8,
}

impl View for SystemTime {
    type V = (Seq<char>, u8);

    open spec fn view(&self) -> (Seq<char>, u8) {
        (self.date_time@, self.day_of_week)
    }
}

/// One entry of an output's daily schedule: a `HH:MM:SS` time of day and a state.
pub struct DailyEvent {
    pub time: String,
    pub state: u32,
}

impl View for DailyEvent {
    type V = (Seq<char>, u32);

    open spec fn view(&self) -> (Seq<char>, u32) {
        (self.time@, self.state)
    }
}

/// One entry of an output's custom schedule: a `YYYY-MM-DD HH:MM:SS` date-time and a state.
pub struct CustomEvent {
    pub date_time: String,
    pub state: u32,
}

impl View for CustomEvent {
    type V = (Seq<char>, u32);

    open spec fn view(&self) -> (Seq<char>, u32) {
        (self.date_time@, self.state)
    }
}

/// The views of a list of daily events, in order.
pub open spec fn daily_view(v: Seq<DailyEvent>) -> Seq<(Seq<char>, u32)> {
    v.map_values(|e: DailyEvent| e@)
}

/// The views of a list of custom events, in order.
pub open spec fn custom_view(v: Seq<CustomEvent>) -> Seq<(Seq<char>, u32)> {
    v.map_values(|e: CustomEvent| e@)
}

/// The class of reply that a query waits for; replies are matched to waiters by it.
#[derive(Clone, Copy, PartialEq, Eq, Structural, Debug)]
pub enum ReplyKey {
    Time,
    Output(usize),
    DailySchedule(usize),
    CustomSchedule(usize),
}

/// The textual form of a reply key: `+TIME`, `+STACH<n>`, `+TIMESW:<n>,1`, `+TIMESW:<n>,3`.
pub open spec fn key_text(k: ReplyKey) -> Seq<char> {
    match k {
        ReplyKey::Time => "+TIME"@,
        ReplyKey::Output(n) => "+STACH"@ + decimal(n as nat),
        ReplyKey::DailySchedule(n) => "+TIMESW:"@ + decimal(n as nat) + ",1"@,
        ReplyKey::CustomSchedule(n) => "+TIMESW:"@ + decimal(n as nat) + ",3"@,
    }
}

impl ReplyKey {
    /// The textual form of this key.
    pub fn text(&self) -> (r: String)
        ensures
            r@ == key_text(*self),
    {
        match *self {
            ReplyKey::Time => String::from_str("+TIME"),
            ReplyKey::Output(n) => {
                let mut s = String::from_str("+STACH");
                push_decimal(&mut s, n);
                s
            },
            ReplyKey::DailySchedule(n) => {
                let mut s = String::from_str("+TIMESW:");
                push_decimal(&mut s, n);
                s.append(",1");
                s
            },
            ReplyKey::CustomSchedule(n) => {
                let mut s = String::from_str("+TIMESW:");
                push_decimal(&mut s, n);
                s.append(",3");
                s
            },
        }
    }
}

/// A decoded solicited reply, handed to the waiter of its key.
pub enum Reply {
    Time(SystemTime),
    Output(u32),
    DailySchedule(Vec<DailyEvent>),
    CustomSchedule(Vec<CustomEvent>),
}

/// The mathematical content of a reply.
pub ghost enum ReplyView {
    Time(Seq<char>, u8),
    Output(u32),
    DailySchedule(Seq<(Seq<char>, u32)>),
    CustomSchedule(Seq<(Seq<char>, u32)>),
}

impl View for Reply {
    type V = ReplyView;

    open spec fn view(&self) -> ReplyView {
        match self {
            Reply::Time(t) => ReplyView::Time(t.date_time@, t.day_of_week),
            Reply::Output(s) => ReplyView::Output(*s),
            Reply::DailySchedule(v) => ReplyView::DailySchedule(daily_view(v@)),
            Reply::CustomSchedule(v) => ReplyView::CustomSchedule(custom_view(v@)),
        }
    }
}

/// Whether a reply has the payload kind that waiters under `k` expect.
pub open spec fn answers(r: ReplyView, k: ReplyKey) -> bool {
    match (r, k) {
        (ReplyView::Time(_, _), ReplyKey::Time) => true,
        (ReplyView::Output(_), ReplyKey::Output(_)) => true,
        (ReplyView::DailySchedule(_), ReplyKey::DailySchedule(_)) => true,
        (ReplyView::CustomSchedule(_), ReplyKey::CustomSchedule(_)) => true,
        _ => false,
    }
}

/// `AT+OCMOD=1,100`: turn on the periodic all-inputs push, every 100 centiseconds.
pub open spec fn enable_push_command() -> Seq<char> {
    "AT+OCMOD=1,100"@
}

/// `AT+TIME=?`
pub open spec fn time_query_command() -> Seq<char> {
    "AT+TIME=?"@
}

/// `AT+TIME=<date-time> <day-of-week>`
pub open spec fn time_set_command(date_time: Seq<char>, day_of_week: u8) -> Seq<char> {
    "AT+TIME="@ + date_time + " "@ + decimal(day_of_week as nat)
}

/// `AT+STACH<n>=?`
pub open spec fn output_query_command(n: usize) -> Seq<char> {
    "AT+STACH"@ + decimal(n as nat) + "=?"@
}

/// `AT+STACH<n>=<s>`
pub open spec fn output_set_command(n: usize, s: u32) -> Seq<char> {
    "AT+STACH"@ + decimal(n as nat) + "="@ + decimal(s as nat)
}

/// `AT+TIMESW=<n>,1?`
pub open spec fn daily_query_command(n: usize) -> Seq<char> {
    "AT+TIMESW="@ + decimal(n as nat) + ",1?"@
}

/// `AT+TIMESW=<n>,1,<time> <s>`
pub open spec fn daily_add_command(n: usize, time: Seq<char>, s: u32) -> Seq<char> {
    "AT+TIMESW="@ + decimal(n as nat) + ",1,"@ + time + " "@ + decimal(s as nat)
}

/// `AT+TIMESW=<n>,0`
pub open spec fn daily_clear_command(n: usize) -> Seq<char> {
    "AT+TIMESW="@ + decimal(n as nat) + ",0"@
}

/// `AT+TIMESW=<n>,3?`
pub open spec fn custom_query_command(n: usize) -> Seq<char> {
    "AT+TIMESW="@ + decimal(n as nat) + ",3?"@
}

/// `AT+TIMESW=<n>,3,<date-time> <s>`
pub open spec fn custom_add_command(n: usize, date_time: Seq<char>, s: u32) -> Seq<char> {
    "AT+TIMESW="@ + decimal(n as nat) + ",3,"@ + date_time + " "@ + decimal(s as nat)
}

/// `AT+TIMESW=<n>,2`
pub open spec fn custom_clear_command(n: usize) -> Seq<char> {
    "AT+TIMESW="@ + decimal(n as nat) + ",2"@
}

pub fn enable_push() -> (r: String)
    ensures
        r@ == enable_push_command(),
{
    String::from_str("AT+OCMOD=1,100")
}

pub fn time_query() -> (r: String)
    ensures
        r@ == time_query_command(),
{
    String::from_str("AT+TIME=?")
}

pub fn time_set(time: &SystemTime) -> (r: String)
    ensures
        r@ == time_set_command(time.date_time@, time.day_of_week),
{
    let mut s = String::from_str("AT+TIME=");
    s.append(time.date_time.as_str());
    s.append(" ");
    push_decimal(&mut s, time.day_of_week as usize);
    s
}

pub fn output_query(n: usize) -> (r: String)
    ensures
        r@ == output_query_command(n),
{
    let mut s = String::from_str("AT+STACH");
    push_decimal(&mut s, n);
    s.append("=?");
    s
}

pub fn output_set(n: usize, state: u32) -> (r: String)
    ensures
        r@ == output_set_command(n, state),
{
    let mut s = String::from_str("AT+STACH");
    push_decimal(&mut s, n);
    s.append("=");
    push_decimal(&mut s, state as usize);
    s
}

/// `AT+TIMESW=<n>,` followed by `tail`.
fn schedule_command(n: usize, tail: &str) -> (r: String)
    ensures
        r@ == "AT+TIMESW="@ + decimal(n as nat) + tail@,
{
    let mut s = String::from_str("AT+TIMESW=");
    push_decimal(&mut s, n);
    s.append(tail);
    s
}

pub fn daily_query(n: usize) -> (r: String)
    ensures
        r@ == daily_query_command(n),
{
    schedule_command(n, ",1?")
}

pub fn daily_add(n: usize, event: &DailyEvent) -> (r: String)
    ensures
        r@ == daily_add_command(n, event.time@, event.state),
{
    let mut s = schedule_command(n, ",1,");
    s.append(event.time.as_str());
    s.append(" ");
    push_decimal(&mut s, event.state as usize);
    s
}

pub fn daily_clear(n: usize) -> (r: String)
    ensures
        r@ == daily_clear_command(n),
{
    schedule_command(n, ",0")
}

pub fn custom_query(n: usize) -> (r: String)
    ensures
        r@ == custom_query_command(n),
{
    schedule_command(n, ",3?")
}

pub fn custom_add(n: usize, event: &CustomEvent) -> (r: String)
    ensures
        r@ == custom_add_command(n, event.date_time@, event.state),
{
    let mut s = schedule_command(n, ",3,");
    s.append(event.date_time.as_str());
    s.append(" ");
    push_decimal(&mut s, event.state as usize);
    s
}

pub fn custom_clear(n: usize) -> (r: String)
    ensures
        r@ == custom_clear_command(n),
{
    schedule_command(n, ",2")
}

} // verus!
