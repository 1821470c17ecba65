//! Where things are kept, and under which names.
//!
//! Everything lives below one data directory: a file per day of records, a
//! file per named profile, the settings, the frames and the logs. This module
//! decides the names and keeps a day's file up to date in memory; reading and
//! writing the files is the caller's part.

use vstd::prelude::*;
use vstd::string::StringExecFns;
use crate::aggregate::{append_record, day_with};
use crate::ratio::{decimal, decimal_digits};
use crate::records::{
    copy_record, record_views, DailySummary, DayView, RecordView, SummaryRecord,
};
use crate::text::{
    char_is_ascii_alphanumeric, chars_of, control_code, ends_with, finishes_with,
    is_ascii_alphanumeric, last_index_of, lemma_lex_reflexive, lemma_lex_total,
    lemma_lex_transitive, lex_le, rfind_char, same_str, same_text, slice, string_of, text_le,
    trim_start, trimmed_start, unicode_uppercase, views, white_space,
};

verus! {

// ---------------------------------------------------------------------------
// Names of profiles
// ---------------------------------------------------------------------------

/// The longest name of a profile, in characters.
pub const MAX_PROFILE_NAME: usize = 64;

/// `s` without the ending `suffix`, where it has that ending.
pub open spec fn strip_suffix(s: Seq<char>, suffix: Seq<char>) -> Seq<char> {
    if ends_with(s, suffix) {
        s.subrange(0, s.len() - suffix.len())
    } else {
        s
    }
}

/// The name that is meant by what the user typed: without leading white space
/// and without a final `.json`.
pub open spec fn profile_base(name: Seq<char>) -> Seq<char> {
    strip_suffix(trim_start(name), ".json"@)
}

/// A character that no file name may hold.
pub open spec fn is_forbidden(c: char) -> bool {
    c == '\\' || c == '/' || c == ':' || c == '*' || c == '?' || c == '"' || c == '<' || c == '>'
        || c == '|'
}

/// The name holds a control code or a character that no file name may hold.
pub open spec fn has_illegal(s: Seq<char>) -> bool {
    exists|i: int| 0 <= i < s.len() && (control_code(#[trigger] s[i]) || is_forbidden(s[i]))
}

/// The names that stand for devices.
pub open spec fn reserved_names() -> Seq<Seq<char>> {
    seq![
        "CON"@,
        "PRN"@,
        "AUX"@,
        "NUL"@,
        "COM1"@,
        "COM2"@,
        "COM3"@,
        "COM4"@,
        "COM5"@,
        "COM6"@,
        "COM7"@,
        "COM8"@,
        "COM9"@,
        "LPT1"@,
        "LPT2"@,
        "LPT3"@,
        "LPT4"@,
        "LPT5"@,
        "LPT6"@,
        "LPT7"@,
        "LPT8"@,
        "LPT9"@,
    ]
}

/// What is said of a name that is empty.
pub open spec fn empty_name_message() -> Seq<char> {
    "配置名不能为空"@
}

/// What is said of a name that is too long.
pub open spec fn long_name_message() -> Seq<char> {
    "配置名过长"@
}

/// What is said of a name that stands for something else.
pub open spec fn unusable_name_message() -> Seq<char> {
    "配置名不可用"@
}

/// What is said of a name that ends with white space or a period.
pub open spec fn trailing_message() -> Seq<char> {
    "配置名不能以空格或句点结尾"@
}

/// What is said of a name that holds a character it may not hold.
pub open spec fn illegal_message() -> Seq<char> {
    "配置名包含非法字符"@
}

/// What is wrong with a name, given the name and its uppercase form; nothing
/// where the name can be used.
pub open spec fn name_problem(base: Seq<char>, upper: Seq<char>) -> Option<Seq<char>> {
    if base.len() == 0 {
        Some(empty_name_message())
    } else if base.len() > MAX_PROFILE_NAME {
        Some(long_name_message())
    } else if base == "."@ || base == ".."@ {
        Some(unusable_name_message())
    } else if white_space(base.last()) || base.last() == '.' {
        Some(trailing_message())
    } else if has_illegal(base) {
        Some(illegal_message())
    } else if reserved_names().contains(upper) {
        Some(unusable_name_message())
    } else {
        None
    }
}

/// The name that is meant by what the user typed.
pub fn profile_base_name(name: &str) -> (base: String)
    ensures
        base@ == profile_base(name@),
{
    let v = chars_of(name);
    let t = trimmed_start(&v);
    let suffix = chars_of(".json");
    if finishes_with(&t, &suffix) {
        string_of(&slice(&t, 0, t.len() - suffix.len()))
    } else {
        string_of(&t)
    }
}

fn reserved_catalog() -> (list: Vec<&'static str>)
    ensures
        crate::analysis::names_of(list@) == reserved_names(),
{
    let list = vec![
        "CON",
        "PRN",
        "AUX",
        "NUL",
        "COM1",
        "COM2",
        "COM3",
        "COM4",
        "COM5",
        "COM6",
        "COM7",
        "COM8",
        "COM9",
        "LPT1",
        "LPT2",
        "LPT3",
        "LPT4",
        "LPT5",
        "LPT6",
        "LPT7",
        "LPT8",
        "LPT9",
    ];
    proof {
        assert(crate::analysis::names_of(list@) =~= reserved_names());
    }
    list
}

/// Whether a name in uppercase stands for a device.
pub fn is_reserved_name(upper: &str) -> (r: bool)
    ensures
        r == reserved_names().contains(upper@),
{
    let list = reserved_catalog();
    let mut i: usize = 0;
    while i < list.len()
        invariant
            i <= list.len(),
            crate::analysis::names_of(list@) == reserved_names(),
            forall|j: int| 0 <= j < i ==> reserved_names()[j] != upper@,
        decreases list.len() - i,
    {
        if same_str(list[i], upper) {
            proof {
                assert(reserved_names()[i as int] == upper@);
            }
            return true;
        }
        proof {
            assert(crate::analysis::names_of(list@)[i as int] == list@[i as int]@);
        }
        i += 1;
    }
    false
}

fn char_is_forbidden(c: char) -> (r: bool)
    ensures
        r == is_forbidden(c),
{
    c == '\\' || c == '/' || c == ':' || c == '*' || c == '?' || c == '"' || c == '<' || c == '>'
        || c == '|'
}

/// Whether a name holds a control code or a character that no file name may hold.
pub fn holds_illegal(v: &Vec<char>) -> (r: bool)
    ensures
        r == has_illegal(v@),
{
    let mut i: usize = 0;
    while i < v.len()
        invariant
            i <= v.len(),
            forall|j: int| 0 <= j < i ==> !(control_code(#[trigger] v@[j]) || is_forbidden(v@[j])),
        decreases v.len() - i,
    {
        if v[i].is_control() || char_is_forbidden(v[i]) {
            return true;
        }
        i += 1;
    }
    false
}

/// What is wrong with a name, given the name and its uppercase form.
pub fn check_profile_name(base: &str, upper: &str) -> (problem: Option<String>)
    ensures
        crate::records::optional_view(problem) == name_problem(base@, upper@),
{
    let v = chars_of(base);
    if v.len() == 0 {
        return Some("配置名不能为空".to_string());
    }
    if v.len() > MAX_PROFILE_NAME {
        return Some("配置名过长".to_string());
    }
    if same_str(base, ".") || same_str(base, "..") {
        return Some("配置名不可用".to_string());
    }
    let last = v[v.len() - 1];
    if last.is_whitespace() || last == '.' {
        return Some("配置名不能以空格或句点结尾".to_string());
    }
    if holds_illegal(&v) {
        return Some("配置名包含非法字符".to_string());
    }
    if is_reserved_name(upper) {
        return Some("配置名不可用".to_string());
    }
    None
}

/// Makes a usable name of what the user typed, or says what is wrong with it.
/// Device names are recognized whatever the case of their letters, by the
/// Unicode uppercase form of the name.
pub fn sanitize_profile_name(name: &str) -> (r: Result<String, String>)
    ensures
        match r {
            Ok(base) => base@ == profile_base(name@) && name_problem(
                base@,
                unicode_uppercase(base@),
            ) is None,
            Err(message) => name_problem(
                profile_base(name@),
                unicode_uppercase(profile_base(name@)),
            ) == Some(message@),
        },
{
    let base = profile_base_name(name);
    let upper = base.as_str().to_uppercase();
    match check_profile_name(base.as_str(), upper.as_str()) {
        Some(message) => Err(message),
        None => Ok(base),
    }
}

/// The name of the profile that is kept in the file `file`: what stands
/// before the last period, where `json` stands after it and something before it.
pub open spec fn profile_in(file: Seq<char>) -> Option<Seq<char>> {
    match last_index_of(file, '.') {
        Some(dot) => if dot > 0 && file.subrange(dot + 1, file.len() as int) == "json"@ {
            Some(file.subrange(0, dot))
        } else {
            None
        },
        None => None,
    }
}

/// The names of the profiles that are kept in `files`, file after file.
pub open spec fn profiles_among(files: Seq<Seq<char>>) -> Seq<Seq<char>>
    decreases files.len(),
{
    if files.len() == 0 {
        Seq::empty()
    } else {
        match profile_in(files.last()) {
            Some(name) => profiles_among(files.drop_last()).push(name),
            None => profiles_among(files.drop_last()),
        }
    }
}

/// The names stand in the order of dictionaries.
pub open spec fn in_order(names: Seq<Seq<char>>) -> bool {
    forall|i: int, j: int| 0 <= i <= j < names.len() ==> lex_le(names[i], names[j])
}

/// The name of the profile that is kept in the file `file`.
pub fn profile_name_of(file: &str) -> (name: Option<String>)
    ensures
        crate::records::optional_view(name) == profile_in(file@),
{
    let v = chars_of(file);
    let len: usize = v.len();
    match rfind_char(&v, '.') {
        Some(dot) => {
            let ending = slice(&v, dot + 1, len);
            if dot > 0 && same_text(&ending, &chars_of("json")) {
                Some(string_of(&slice(&v, 0, dot)))
            } else {
                None
            }
        },
        None => None,
    }
}

fn insert_in_order(out: &mut Vec<String>, name: String)
    requires
        in_order(views(old(out)@)),
    ensures
        in_order(views(final(out)@)),
        views(final(out)@).to_multiset() == views(old(out)@).to_multiset().insert(name@),
{
    let ghost before = views(out@);
    let key = chars_of(name.as_str());
    let mut p: usize = 0;
    loop
        invariant_except_break
            p <= out@.len(),
        invariant
            out@ == old(out)@,
            before == views(out@),
            key@ == name@,
            forall|i: int| 0 <= i < p ==> lex_le(before[i], name@),
        ensures
            p <= out@.len(),
            p < out@.len() ==> !lex_le(before[p as int], name@),
        decreases out@.len() - p,
    {
        if p == out.len() {
            break ;
        }
        let here = chars_of(out[p].as_str());
        if !text_le(&here, &key) {
            break ;
        }
        p += 1;
    }
    out.insert(p, name);
    proof {
        let after = views(out@);
        assert(after =~= before.insert(p as int, name@));
        assert forall|i: int, j: int| 0 <= i <= j < after.len() implies lex_le(after[i], after[j]) by {
            lemma_lex_reflexive(name@);
            if j > p {
                assert(after[j] == before[j - 1]);
            }
            if i > p {
                assert(after[i] == before[i - 1]);
            }
            if i == p && j > p {
                lemma_lex_total(before[p as int], name@);
                lemma_lex_transitive(name@, before[p as int], before[j - 1]);
            }
        }
        vstd::seq_lib::to_multiset_remove(after, p as int);
        assert(after.remove(p as int) =~= before);
        after.to_multiset_ensures();
        assert(after.contains(name@)) by {
            assert(after[p as int] == name@);
        }
        assert(after.to_multiset() =~= before.to_multiset().insert(name@));
    }
}

/// The names of the profiles that are kept in `files`, in the order of dictionaries.
pub fn profile_names(files: &Vec<String>) -> (out: Vec<String>)
    ensures
        in_order(views(out@)),
        views(out@).to_multiset() == profiles_among(views(files@)).to_multiset(),
{
    let mut out: Vec<String> = Vec::new();
    let mut i: usize = 0;
    proof {
        assert(views(out@) =~= profiles_among(views(files@).take(0)));
    }
    while i < files.len()
        invariant
            i <= files.len(),
            in_order(views(out@)),
            views(out@).to_multiset() == profiles_among(views(files@).take(i as int)).to_multiset(),
        decreases files.len() - i,
    {
        proof {
            assert(views(files@).take(i + 1).drop_last() == views(files@).take(i as int));
            assert(views(files@).take(i + 1).last() == files@[i as int]@);
        }
        match profile_name_of(files[i].as_str()) {
            Some(name) => {
                proof {
                    vstd::seq_lib::to_multiset_build(
                        profiles_among(views(files@).take(i as int)),
                        name@,
                    );
                }
                insert_in_order(&mut out, name);
            },
            None => {},
        }
        i += 1;
    }
    proof {
        assert(views(files@).take(files.len() as int) == views(files@));
    }
    out
}

// ---------------------------------------------------------------------------
// Names of logs
// ---------------------------------------------------------------------------

/// A character that may stand in the name of a log.
pub open spec fn is_plain(c: char) -> bool {
    is_ascii_alphanumeric(c) || c == '-' || c == '_'
}

/// The characters of `s` that may stand in the name of a log.
pub open spec fn plain_part(s: Seq<char>) -> Seq<char>
    decreases s.len(),
{
    if s.len() == 0 {
        Seq::empty()
    } else if is_plain(s.last()) {
        plain_part(s.drop_last()).push(s.last())
    } else {
        plain_part(s.drop_last())
    }
}

/// The prefix of a log's name: the plain part of what was asked for, or `log`
/// where nothing is left of it.
pub open spec fn log_prefix(prefix: Seq<char>) -> Seq<char> {
    if plain_part(prefix).len() == 0 {
        "log"@
    } else {
        plain_part(prefix)
    }
}

/// The prefix of a log's name.
pub fn sanitize_log_prefix(prefix: &str) -> (clean: String)
    ensures
        clean@ == log_prefix(prefix@),
{
    let v = chars_of(prefix);
    let mut clean: Vec<char> = Vec::new();
    let mut i: usize = 0;
    while i < v.len()
        invariant
            i <= v.len(),
            clean@ == plain_part(v@.take(i as int)),
        decreases v.len() - i,
    {
        proof {
            assert(v@.take(i + 1).drop_last() == v@.take(i as int));
        }
        let ch = v[i];
        if char_is_ascii_alphanumeric(ch) || ch == '-' || ch == '_' {
            clean.push(ch);
        }
        i += 1;
    }
    proof {
        assert(v@.take(v.len() as int) == v@);
    }
    if clean.len() == 0 {
        "log".to_string()
    } else {
        string_of(&clean)
    }
}

/// The number `n` in decimal digits, with zeros in front up to three digits.
pub open spec fn three_digits(n: nat) -> Seq<char> {
    if n < 10 {
        "00"@ + decimal(n)
    } else if n < 100 {
        "0"@ + decimal(n)
    } else {
        decimal(n)
    }
}

/// The name of a log written at the time `stamp` and `millis` milliseconds.
pub open spec fn log_name(stamp: Seq<char>, millis: u32, prefix: Seq<char>) -> Seq<char> {
    stamp + "-"@ + three_digits(millis as nat) + "-"@ + log_prefix(prefix) + ".log"@
}

/// The name of a log written at the time `stamp` and `millis` milliseconds.
pub fn log_file_name(stamp: &str, millis: u32, prefix: &str) -> (name: String)
    ensures
        name@ == log_name(stamp@, millis, prefix@),
{
    let mut name = stamp.to_string();
    name.append("-");
    if millis < 10 {
        name.append("00");
    } else if millis < 100 {
        name.append("0");
    }
    name.append(string_of(&decimal_digits(millis)).as_str());
    name.append("-");
    name.append(sanitize_log_prefix(prefix).as_str());
    name.append(".log");
    proof {
        assert(name@ =~= log_name(stamp@, millis, prefix@));
    }
    name
}

/// The name of the frame taken at the time `stamp`.
pub open spec fn screenshot_name(stamp: Seq<char>) -> Seq<char> {
    stamp + ".jpg"@
}

/// The name of the frame taken at the time `stamp`.
pub fn screenshot_file_name(stamp: &str) -> (name: String)
    ensures
        name@ == screenshot_name(stamp@),
{
    let mut name = stamp.to_string();
    name.append(".jpg");
    name
}

// ---------------------------------------------------------------------------
// Places
// ---------------------------------------------------------------------------

/// `dir` and `name` as one path.
pub open spec fn path_join(dir: Seq<char>, name: Seq<char>) -> Seq<char> {
    dir + "/"@ + name
}

/// `dir` and `name` as one path.
pub fn join_path(dir: &str, name: &str) -> (path: String)
    ensures
        path@ == path_join(dir@, name@),
{
    let mut path = dir.to_string();
    path.append("/");
    path.append(name);
    path
}

/// The data directory below the user's directory for local data, or below
/// the current directory where the user has none.
pub open spec fn data_dir_below(local: Option<Seq<char>>) -> Seq<char> {
    path_join(
        path_join(
            match local {
                Some(dir) => dir,
                None => "."@,
            },
            "screen-assistant"@,
        ),
        "data"@,
    )
}

/// The day that a record belongs to: the first ten characters of its time.
pub open spec fn partition_of(timestamp: Seq<char>) -> Seq<char> {
    if timestamp.len() <= 10 {
        timestamp
    } else {
        timestamp.subrange(0, 10)
    }
}

/// The day that a record belongs to.
pub fn partition_date(timestamp: &str) -> (date: String)
    ensures
        date@ == partition_of(timestamp@),
{
    let v = chars_of(timestamp);
    if v.len() <= 10 {
        timestamp.to_string()
    } else {
        string_of(&slice(&v, 0, 10))
    }
}

/// The day that a record is added to: the stored day, or a new one where none is stored.
pub open spec fn day_for(stored: Option<DayView>, record: RecordView) -> DayView {
    match stored {
        Some(day) => day,
        None => DayView {
            date: partition_of(record.timestamp),
            records: Seq::empty(),
            aggregated: Seq::empty(),
            day_summary: None,
        },
    }
}

/// The view of a day that may be missing.
pub open spec fn stored_view(stored: Option<DailySummary>) -> Option<DayView> {
    match stored {
        Some(day) => Some(day@),
        None => None,
    }
}

/// Knows the data directory.
#[derive(Debug, Clone)]
pub struct StorageManager {
    data_dir: String,
}

impl StorageManager {
    /// The data directory.
    pub closed spec fn root(&self) -> Seq<char> {
        self.data_dir@
    }

    /// A manager for the data directory below `local_data_dir`.
    pub fn new(local_data_dir: Option<&str>) -> (m: Self)
        ensures
            m.root() == data_dir_below(
                match local_data_dir {
                    Some(dir) => Some(dir@),
                    None => None,
                },
            ),
    {
        let base = match local_data_dir {
            Some(dir) => dir,
            None => ".",
        };
        let app_dir = join_path(base, "screen-assistant");
        StorageManager { data_dir: join_path(app_dir.as_str(), "data") }
    }

    /// The data directory.
    pub fn data_dir(&self) -> (dir: String)
        ensures
            dir@ == self.root(),
    {
        self.data_dir.clone()
    }

    /// The directories that have to exist before anything is kept.
    pub fn directories(&self) -> (dirs: Vec<String>)
        ensures
            dirs@.len() == 6,
            dirs@[0]@ == self.root(),
            dirs@[1]@ == path_join(self.root(), "summaries"@),
            dirs@[2]@ == path_join(self.root(), "aggregated"@),
            dirs@[3]@ == path_join(self.root(), "profiles"@),
            dirs@[4]@ == path_join(self.root(), "screenshots"@),
            dirs@[5]@ == path_join(self.root(), "logs"@),
    {
        let mut dirs: Vec<String> = Vec::new();
        dirs.push(self.data_dir.clone());
        dirs.push(join_path(self.data_dir.as_str(), "summaries"));
        dirs.push(join_path(self.data_dir.as_str(), "aggregated"));
        dirs.push(join_path(self.data_dir.as_str(), "profiles"));
        dirs.push(join_path(self.data_dir.as_str(), "screenshots"));
        dirs.push(join_path(self.data_dir.as_str(), "logs"));
        dirs
    }

    /// Where frames are kept.
    pub fn screenshots_dir(&self) -> (dir: String)
        ensures
            dir@ == path_join(self.root(), "screenshots"@),
    {
        join_path(self.data_dir.as_str(), "screenshots")
    }

    /// Where the frame taken at the time `stamp` is kept.
    pub fn screenshot_path(&self, stamp: &str) -> (path: String)
        ensures
            path@ == path_join(path_join(self.root(), "screenshots"@), screenshot_name(stamp@)),
    {
        join_path(self.screenshots_dir().as_str(), screenshot_file_name(stamp).as_str())
    }

    /// Where logs are kept.
    pub fn logs_dir(&self) -> (dir: String)
        ensures
            dir@ == path_join(self.root(), "logs"@),
    {
        join_path(self.data_dir.as_str(), "logs")
    }

    /// Where the settings are kept.
    pub fn config_path(&self) -> (path: String)
        ensures
            path@ == path_join(self.root(), "config.json"@),
    {
        join_path(self.data_dir.as_str(), "config.json")
    }

    /// Where the log written at the time `stamp` and `millis` milliseconds is kept.
    pub fn log_snapshot_path(&self, stamp: &str, millis: u32, prefix: &str) -> (path: String)
        ensures
            path@ == path_join(
                path_join(self.root(), "logs"@),
                log_name(stamp@, millis, prefix@),
            ),
    {
        join_path(self.logs_dir().as_str(), log_file_name(stamp, millis, prefix).as_str())
    }

    /// The names of the profiles among the files of the profiles directory,
    /// in the order of dictionaries.
    pub fn list_profiles(&self, files: &Vec<String>) -> (names: Vec<String>)
        ensures
            in_order(views(names@)),
            views(names@).to_multiset() == profiles_among(views(files@)).to_multiset(),
    {
        profile_names(files)
    }

    /// Where profiles are kept.
    pub fn profiles_dir(&self) -> (dir: String)
        ensures
            dir@ == path_join(self.root(), "profiles"@),
    {
        join_path(self.data_dir.as_str(), "profiles")
    }

    /// Where the profile `name` is kept. A profile without a name is kept nowhere.
    pub fn profile_path(&self, name: &str) -> (r: Result<String, String>)
        ensures
            match r {
                Ok(path) => name@.len() > 0 && path@ == path_join(
                    path_join(self.root(), "profiles"@),
                    name@ + ".json"@,
                ),
                Err(message) => name@.len() == 0 && message@ == empty_name_message(),
            },
    {
        if name.is_empty() {
            return Err("配置名不能为空".to_string());
        }
        let mut file = name.to_string();
        file.append(".json");
        Ok(join_path(join_path(self.data_dir.as_str(), "profiles").as_str(), file.as_str()))
    }

    /// Where the records of the day `date` are kept.
    pub fn summary_path(&self, date: &str) -> (path: String)
        ensures
            path@ == path_join(path_join(self.root(), "summaries"@), date@ + ".json"@),
    {
        let mut file = date.to_string();
        file.append(".json");
        join_path(join_path(self.data_dir.as_str(), "summaries").as_str(), file.as_str())
    }

    /// The records of a day, in the order in which they came; none where
    /// nothing is stored for the day.
    pub fn get_summaries(&self, stored: Option<&DailySummary>) -> (records: Vec<SummaryRecord>)
        ensures
            record_views(records@) == match stored {
                Some(day) => day@.records,
                None => Seq::empty(),
            },
    {
        let mut records: Vec<SummaryRecord> = Vec::new();
        match stored {
            Some(day) => {
                let mut i: usize = 0;
                proof {
                    assert(record_views(records@) =~= day@.records.take(0));
                }
                while i < day.records.len()
                    invariant
                        i <= day.records.len(),
                        record_views(records@) == day@.records.take(i as int),
                    decreases day.records.len() - i,
                {
                    let ghost before = record_views(records@);
                    records.push(copy_record(&day.records[i]));
                    proof {
                        assert(record_views(records@) =~= before.push(day.records@[i as int]@));
                        assert(day@.records.take(i + 1) =~= before.push(day.records@[i as int]@));
                    }
                    i += 1;
                }
                proof {
                    assert(day@.records.take(day.records.len() as int) =~= day@.records);
                }
            },
            None => {
                proof {
                    assert(record_views(records@) =~= Seq::<RecordView>::empty());
                }
            },
        }
        records
    }

    /// The day after `record` is added to what is stored for it. The record
    /// goes to the end; where that fills a batch, the batch's aggregate is
    /// added with it.
    pub fn save_summary(&self, stored: Option<DailySummary>, record: &SummaryRecord) -> (day:
        DailySummary)
        ensures
            day@ == day_with(day_for(stored_view(stored), record@), record@),
    {
        let mut day = match stored {
            Some(d) => d,
            None => {
                let date = partition_date(record.timestamp.as_str());
                let fresh = DailySummary::new(date.as_str());
                proof {
                    assert(fresh@.records =~= Seq::<RecordView>::empty());
                    assert(fresh@.aggregated =~= Seq::<crate::records::AggregateView>::empty());
                }
                fresh
            },
        };
        append_record(&mut day, record);
        day
    }
}

} // verus!
