use chrono::{Datelike, Timelike};
use vstd::prelude::*;
use vstd::multiset::Multiset;
use vstd::string::{StrSliceExecFns, StringExecFns};

verus! {

/// A point in time as the task store writes it (`YYYYMMDDThhmmssZ`), in UTC.
#[derive(Clone, Copy, Debug, PartialEq, Eq, Structural)]
pub struct ParsableDateTime {
    pub year: i32,
    pub month: u32,
    pub day: u32,
    pub hour: u32,
    pub minute: u32,
    pub second: u32,
}

/// The fields of a `YYYYMMDDThhmmssZ` timestamp as chrono reads it:
/// year, month, day, hour, minute, second; `None` where it does not read.
pub uninterp spec fn utc_fields_of(s: Seq<char>) -> Option<(i32, u32, u32, u32, u32, u32)>;

/// Relies on chrono's `NaiveDateTime::parse_from_str` with the format
/// `%Y%m%dT%H%M%SZ`: whether it reads and what it reads depend on the text alone.
#[verifier::external_body]
fn parse_utc_fields(s: &str) -> (r: Option<(i32, u32, u32, u32, u32, u32)>)
    ensures
        r == utc_fields_of(s@),
{
    match chrono::NaiveDateTime::parse_from_str(s, "%Y%m%dT%H%M%SZ") {
        Ok(d) => Some((d.year(), d.month(), d.day(), d.hour(), d.minute(), d.second())),
        Err(_) => None,
    }
}

impl ParsableDateTime {
    /// The timestamp with these fields.
    pub fn from_fields(f: (i32, u32, u32, u32, u32, u32)) -> (r: Self)
        ensures
            r == (ParsableDateTime {
                year: f.0,
                month: f.1,
                day: f.2,
                hour: f.3,
                minute: f.4,
                second: f.5,
            }),
    {
        ParsableDateTime { year: f.0, month: f.1, day: f.2, hour: f.3, minute: f.4, second: f.5 }
    }

    /// Reads a timestamp in the store's `YYYYMMDDThhmmssZ` form.
    pub fn parse(s: &str) -> (r: Option<Self>)
        ensures
            r == match utc_fields_of(s@) {
                Some(f) => Some(
                    ParsableDateTime {
                        year: f.0,
                        month: f.1,
                        day: f.2,
                        hour: f.3,
                        minute: f.4,
                        second: f.5,
                    },
                ),
                None => None,
            },
    {
        match parse_utc_fields(s) {
            Some(f) => Some(Self::from_fields(f)),
            None => None,
        }
    }
}

/// The decimal digit for `d` below ten.
pub open spec fn digit_char(d: nat) -> char {
    if d == 0 {
        '0'
    } else if d == 1 {
        '1'
    } else if d == 2 {
        '2'
    } else if d == 3 {
        '3'
    } else if d == 4 {
        '4'
    } else if d == 5 {
        '5'
    } else if d == 6 {
        '6'
    } else if d == 7 {
        '7'
    } else if d == 8 {
        '8'
    } else {
        '9'
    }
}

/// The decimal digits of `n`.
pub open spec fn digits(n: nat) -> Seq<char>
    decreases n,
{
    if n < 10 {
        seq![digit_char(n)]
    } else {
        digits(n / 10).push(digit_char(n % 10))
    }
}

/// `n` written in decimal, with a minus sign when negative.
pub open spec fn decimal(n: int) -> Seq<char> {
    if n < 0 {
        seq!['-'] + digits((-n) as nat)
    } else {
        digits(n as nat)
    }
}

/// `s` with zeros put in front until it is `width` characters long.
pub open spec fn zero_padded(s: Seq<char>, width: nat) -> Seq<char> {
    if s.len() >= width {
        s
    } else {
        Seq::new((width - s.len()) as nat, |i: int| '0') + s
    }
}

/// A timestamp in the store's `YYYYMMDDThhmmssZ` form.
pub open spec fn timestamp_text(d: ParsableDateTime) -> Seq<char> {
    zero_padded(decimal(d.year as int), 4) + zero_padded(decimal(d.month as int), 2) + zero_padded(
        decimal(d.day as int),
        2,
    ) + seq!['T'] + zero_padded(decimal(d.hour as int), 2) + zero_padded(decimal(d.minute as int), 2)
        + zero_padded(decimal(d.second as int), 2) + seq!['Z']
}

/// The text of one decimal digit.
fn digit_text(d: u64) -> (r: &'static str)
    requires
        d < 10,
    ensures
        r@ == seq![digit_char(d as nat)],
{
    let r = if d == 0 {
        "0"
    } else if d == 1 {
        "1"
    } else if d == 2 {
        "2"
    } else if d == 3 {
        "3"
    } else if d == 4 {
        "4"
    } else if d == 5 {
        "5"
    } else if d == 6 {
        "6"
    } else if d == 7 {
        "7"
    } else if d == 8 {
        "8"
    } else {
        "9"
    };
    proof {
        reveal_strlit("0");
        reveal_strlit("1");
        reveal_strlit("2");
        reveal_strlit("3");
        reveal_strlit("4");
        reveal_strlit("5");
        reveal_strlit("6");
        reveal_strlit("7");
        reveal_strlit("8");
        reveal_strlit("9");
    }
    assert(r@ =~= seq![digit_char(d as nat)]);
    r
}

/// The decimal digits of `n`.
fn digits_text(n: u64) -> (r: String)
    ensures
        r@ == digits(n as nat),
    decreases n,
{
    if n < 10 {
        String::from_str(digit_text(n))
    } else {
        let mut r = digits_text(n / 10);
        r.append(digit_text(n % 10));
        r
    }
}

/// `n` written in decimal.
fn decimal_text(n: i64) -> (r: String)
    requires
        n > i64::MIN,
    ensures
        r@ == decimal(n as int),
{
    if n < 0 {
        let mut r = String::from_str("-");
        proof {
            reveal_strlit("-");
        }
        r.append(digits_text((-n) as u64).as_str());
        assert(r@ =~= decimal(n as int));
        r
    } else {
        digits_text(n as u64)
    }
}

/// `n` in decimal, zero-padded to `width` characters.
fn padded_text(n: i64, width: usize) -> (r: String)
    requires
        n > i64::MIN,
    ensures
        r@ == zero_padded(decimal(n as int), width as nat),
{
    let digits = decimal_text(n);
    let len = digits.unicode_len();
    if len >= width {
        return digits;
    }
    let mut r = String::new();
    let mut i: usize = len;
    while i < width
        invariant
            len <= i <= width,
            r@ == Seq::new((i - len) as nat, |k: int| '0'),
        decreases width - i,
    {
        r.append("0");
        proof {
            reveal_strlit("0");
        }
        assert(r@ =~= Seq::new((i + 1 - len) as nat, |k: int| '0'));
        i = i + 1;
    }
    r.append(digits.as_str());
    r
}

impl ParsableDateTime {
    /// The timestamp in the store's `YYYYMMDDThhmmssZ` form.
    pub fn to_text(&self) -> (r: String)
        ensures
            r@ == timestamp_text(*self),
    {
        let mut r = padded_text(self.year as i64, 4);
        r.append(padded_text(self.month as i64, 2).as_str());
        r.append(padded_text(self.day as i64, 2).as_str());
        r.append("T");
        r.append(padded_text(self.hour as i64, 2).as_str());
        r.append(padded_text(self.minute as i64, 2).as_str());
        r.append(padded_text(self.second as i64, 2).as_str());
        r.append("Z");
        proof {
            reveal_strlit("T");
            reveal_strlit("Z");
        }
        assert(r@ =~= timestamp_text(*self));
        r
    }
}

/// The texts of a sequence of strings.
pub open spec fn texts(v: Seq<String>) -> Seq<Seq<char>> {
    v.map_values(|s: String| s@)
}

/// The store's field assignment `name:value`, or `name:` (which clears the
/// field) where there is no value.
pub open spec fn assignment(name: Seq<char>, value: Option<Seq<char>>) -> Seq<char> {
    match value {
        Some(v) => name + seq![':'] + v,
        None => name + seq![':'],
    }
}

/// The estimate as a field value.
pub open spec fn estimate_value(e: Option<i32>) -> Option<Seq<char>> {
    match e {
        Some(n) => Some(decimal(n as int)),
        None => None,
    }
}

/// The arguments that overwrite a task's fields in the store: its
/// description, status, estimate, wait date and reminder uuid.
pub open spec fn save_args(t: Task) -> Seq<Seq<char>> {
    let head = seq![
        t.uuid@,
        "modify"@,
        t.description@,
        assignment("status"@, Some(t.status@)),
        assignment("estimate"@, estimate_value(t.estimate)),
    ];
    let wait = assignment(
        "wait"@,
        match t.wait {
            Some(d) => Some(timestamp_text(d)),
            None => None,
        },
    );
    head + seq![wait] + seq![
        assignment(
            "taskn_reminder_uuid"@,
            match t.taskn_reminder_uuid {
                Some(u) => Some(u@),
                None => None,
            },
        ),
    ]
}

/// `name:value`, or `name:` without a value.
fn assignment_text(name: &str, value: Option<&str>) -> (r: String)
    ensures
        r@ == assignment(
            name@,
            match value {
                Some(v) => Some(v@),
                None => None,
            },
        ),
{
    let mut r = String::from_str(name);
    r.append(":");
    proof {
        reveal_strlit(":");
    }
    match value {
        Some(v) => {
            r.append(v);
        },
        None => {},
    }
    r
}

/// One task record of the task store.
pub struct Task {
    pub id: usize,
    pub description: String,
    pub uuid: String,
    pub status: String,
    /// The ordering key: tasks are shown and processed by ascending estimate.
    pub estimate: Option<i32>,
    pub tags: Option<Vec<String>>,
    pub wait: Option<ParsableDateTime>,
    pub taskn_reminder_uuid: Option<String>,
}

/// The order of ordering keys: a missing key sorts after every present one.
pub open spec fn estimate_le(a: Option<i32>, b: Option<i32>) -> bool {
    match (a, b) {
        (_, None) => true,
        (None, Some(_)) => false,
        (Some(x), Some(y)) => x <= y,
    }
}

/// The tasks stand in ascending order of their ordering keys.
pub open spec fn sorted_by_estimate(s: Seq<Task>) -> bool {
    forall|i: int, j: int|
        0 <= i < j < s.len() ==> estimate_le(#[trigger] s[i].estimate, #[trigger] s[j].estimate)
}

/// One of the tags is `tag`.
pub open spec fn tags_contain(tags: Seq<String>, tag: Seq<char>) -> bool {
    exists|i: int| 0 <= i < tags.len() && (#[trigger] tags[i])@ == tag
}

/// The task carries the tag `tag`.
pub open spec fn has_tag_spec(tags: Option<Vec<String>>, tag: Seq<char>) -> bool {
    match tags {
        None => false,
        Some(v) => tags_contain(v@, tag),
    }
}

/// Compares two ordering keys; a missing key is greater than any present one.
pub fn estimate_order(a: Option<i32>, b: Option<i32>) -> (r: bool)
    ensures
        r == estimate_le(a, b),
{
    match (a, b) {
        (_, None) => true,
        (None, Some(_)) => false,
        (Some(x), Some(y)) => x <= y,
    }
}

/// Whether two strings hold the same characters.
pub fn same_text(a: &str, b: &str) -> (r: bool)
    ensures
        r == (a@ == b@),
{
    let a = String::from_str(a);
    let b = String::from_str(b);
    a == b
}

/// Sorts tasks by ascending ordering key; tasks without a key come last.
pub fn sort_by_estimate(tasks: Vec<Task>) -> (r: Vec<Task>)
    ensures
        sorted_by_estimate(r@),
        r@.to_multiset() == tasks@.to_multiset(),
{
    broadcast use vstd::seq_lib::group_to_multiset_ensures;

    let mut rest = tasks;
    let mut r: Vec<Task> = Vec::new();
    while rest.len() > 0
        invariant
            sorted_by_estimate(r@),
            r@.to_multiset().add(rest@.to_multiset()) == tasks@.to_multiset(),
        decreases rest@.len(),
    {
        let ghost before = rest@;
        let t = rest.pop().unwrap();
        assert(before == rest@.push(t));
        let mut j: usize = 0;
        while j < r.len() && estimate_order(r[j].estimate, t.estimate)
            invariant
                0 <= j <= r@.len(),
                forall|k: int| 0 <= k < j ==> estimate_le(#[trigger] r@[k].estimate, t.estimate),
            decreases r@.len() - j,
        {
            j = j + 1;
        }
        proof {
            assert forall|k: int| j <= k < r@.len() implies estimate_le(
                t.estimate,
                #[trigger] r@[k].estimate,
            ) by {
                assert(!estimate_le(r@[j as int].estimate, t.estimate));
                assert(estimate_le(r@[j as int].estimate, r@[k].estimate) || k == j);
            }
        }
        let ghost old_r = r@;
        r.insert(j, t);
        proof {
            assert forall|a: int, b: int| 0 <= a < b < r@.len() implies estimate_le(
                #[trigger] r@[a].estimate,
                #[trigger] r@[b].estimate,
            ) by {
                if a < j && b > j {
                    assert(r@[a] == old_r[a]);
                    assert(r@[b] == old_r[b - 1]);
                    assert(estimate_le(old_r[a].estimate, old_r[b - 1].estimate));
                }
            }
            assert(r@ == old_r.insert(j as int, t));
            vstd::seq_lib::to_multiset_insert(old_r, j as int, t);
            vstd::seq_lib::to_multiset_build(rest@, t);
            assert(r@.to_multiset().add(rest@.to_multiset()) =~= old_r.to_multiset().add(
                before.to_multiset(),
            ));
        }
    }
    assert(rest@.to_multiset() =~= Multiset::empty());
    assert(r@.to_multiset().add(rest@.to_multiset()) =~= r@.to_multiset());
    r
}

/// The unicode White_Space characters.
pub open spec fn is_white_space(c: char) -> bool {
    ('\u{9}' <= c <= '\u{d}') || c == ' ' || c == '\u{85}' || c == '\u{a0}' || c == '\u{1680}'
        || ('\u{2000}' <= c <= '\u{200a}') || c == '\u{2028}' || c == '\u{2029}'
        || c == '\u{202f}' || c == '\u{205f}' || c == '\u{3000}'
}

/// Whether `c` is a unicode White_Space character.
pub fn white_space(c: char) -> (r: bool)
    ensures
        r == is_white_space(c),
{
    ('\u{9}' <= c && c <= '\u{d}') || c == ' ' || c == '\u{85}' || c == '\u{a0}' || c == '\u{1680}'
        || ('\u{2000}' <= c && c <= '\u{200a}') || c == '\u{2028}' || c == '\u{2029}'
        || c == '\u{202f}' || c == '\u{205f}' || c == '\u{3000}'
}

/// Whether a note holds anything but white space. Editors often leave an
/// empty line in a file, so an empty-looking note may not be empty.
pub fn has_visible_text(contents: &str) -> (r: bool)
    ensures
        r == exists|i: int| 0 <= i < contents@.len() && !is_white_space(#[trigger] contents@[i]),
{
    let n = contents.unicode_len();
    let mut i: usize = 0;
    while i < n
        invariant
            n == contents@.len(),
            0 <= i <= n,
            forall|k: int| 0 <= k < i ==> is_white_space(#[trigger] contents@[k]),
        decreases n - i,
    {
        if !white_space(contents.get_char(i)) {
            return true;
        }
        i = i + 1;
    }
    false
}

impl Task {
    /// The store arguments that overwrite the task's fields with its values.
    pub fn save(&self) -> (r: Vec<String>)
        ensures
            texts(r@) == save_args(*self),
    {
        let mut r: Vec<String> = Vec::new();
        r.push(self.uuid.clone());
        r.push(String::from_str("modify"));
        r.push(self.description.clone());
        r.push(assignment_text("status", Some(self.status.as_str())));
        match self.estimate {
            Some(e) => {
                let v = decimal_text(e as i64);
                r.push(assignment_text("estimate", Some(v.as_str())));
            },
            None => {
                r.push(assignment_text("estimate", None));
            },
        }
        match &self.wait {
            Some(d) => {
                let v = d.to_text();
                r.push(assignment_text("wait", Some(v.as_str())));
            },
            None => {
                r.push(assignment_text("wait", None));
            },
        }
        match &self.taskn_reminder_uuid {
            Some(u) => {
                r.push(assignment_text("taskn_reminder_uuid", Some(u.as_str())));
            },
            None => {
                r.push(assignment_text("taskn_reminder_uuid", None));
            },
        }
        assert(texts(r@) =~= save_args(*self));
        r
    }

    /// The store arguments that give the task the estimate, or clear it.
    pub fn set_estimate(&self, estimate: Option<i32>) -> (r: Vec<String>)
        ensures
            texts(r@) == seq![self.uuid@, "modify"@, assignment("estimate"@, estimate_value(estimate))],
    {
        let mut r: Vec<String> = Vec::new();
        r.push(self.uuid.clone());
        r.push(String::from_str("modify"));
        match estimate {
            Some(e) => {
                let v = decimal_text(e as i64);
                r.push(assignment_text("estimate", Some(v.as_str())));
            },
            None => {
                r.push(assignment_text("estimate", None));
            },
        }
        assert(texts(r@) =~= seq![self.uuid@, "modify"@, assignment("estimate"@, estimate_value(estimate))]);
        r
    }

    /// The arguments that record the uuid of the task's reminder in the store.
    pub fn set_reminder_uuid(&self, uuid: &str) -> (r: Vec<String>)
        ensures
            texts(r@) == seq![self.uuid@, "modify"@, assignment("taskn_reminder_uuid"@, Some(uuid@))],
    {
        let mut r: Vec<String> = Vec::new();
        r.push(self.uuid.clone());
        r.push(String::from_str("modify"));
        r.push(assignment_text("taskn_reminder_uuid", Some(uuid)));
        assert(texts(r@) =~= seq![self.uuid@, "modify"@, assignment("taskn_reminder_uuid"@, Some(uuid@))]);
        r
    }

    /// Whether the task carries the tag `s`.
    pub fn has_tag(&self, s: &str) -> (r: bool)
        ensures
            r == has_tag_spec(self.tags, s@),
    {
        match &self.tags {
            None => false,
            Some(tags) => {
                let mut i: usize = 0;
                while i < tags.len()
                    invariant
                        self.tags == Some(*tags),
                        0 <= i <= tags@.len(),
                        forall|k: int| 0 <= k < i ==> (#[trigger] tags@[k])@ != s@,
                    decreases tags@.len() - i,
                {
                    if same_text(tags[i].as_str(), s) {
                        assert(((*tags)@[i as int])@ == s@);
                        return true;
                    }
                    i = i + 1;
                }
                false
            },
        }
    }
}

} // verus!
