//! The two line formats, the names of the local files, and the host part of
//! the collector's address.

use vstd::prelude::*;
use crate::level::Level;
use crate::text::{
    decimal,
    decimal_of,
    decimal_wide,
    ends_with,
    find_char,
    is_short_number,
    is_single_line,
    is_token,
    lemma_decimal_injective,
    lemma_decimal_nonempty,
};

verus! {

/// A line of a local file: `[TIMESTAMP][LEVEL][TARGET] BODY` and a line feed.
pub open spec fn file_line_of(
    timestamp: Seq<char>,
    level: Level,
    target: Seq<char>,
    body: Seq<char>,
) -> Seq<char> {
    "["@ + timestamp + "]["@ + level.name_of() + "]["@ + target + "] "@ + body + "\n"@
}

/// A frame for the collector:
/// `<PRI>1 TIMESTAMP HOSTNAME TARGET - - - [LEVEL] BODY` and a line feed.
pub open spec fn syslog_frame_of(
    timestamp: Seq<char>,
    hostname: Seq<char>,
    level: Level,
    target: Seq<char>,
    body: Seq<char>,
) -> Seq<char> {
    "<"@ + decimal_of(level.priority_of()) + ">1 "@ + timestamp + " "@ + hostname + " "@ + target
        + " - - - ["@ + level.name_of() + "] "@ + body + "\n"@
}

/// The name of the file opened at the time that `stamp` writes.
pub open spec fn rotation_file_name_of(stamp: Seq<char>) -> Seq<char> {
    "log_"@ + stamp + ".log"@
}

/// Whether a file of this name counts as one of the logger's own.
pub open spec fn is_log_file_name_of(name: Seq<char>) -> bool {
    ends_with(name, ".log"@)
}

/// The host of a `host:port` address: what stands before its first colon.
/// An address without a colon has none.
pub open spec fn endpoint_host_of(endpoint: Seq<char>) -> Option<Seq<char>> {
    if exists|i: int| 0 <= i < endpoint.len() && endpoint[i] == ':' {
        let i = choose|i: int|
            0 <= i < endpoint.len() && endpoint[i] == ':' && forall|j: int|
                0 <= j < i ==> endpoint[j] != ':';
        Some(endpoint.subrange(0, i))
    } else {
        None
    }
}

/// Renders a record for the local file.
pub fn file_line(timestamp: &str, level: Level, target: &str, body: &str) -> (line: String)
    ensures
        line@ == file_line_of(timestamp@, level, target@, body@),
{
    let mut line = String::new();
    line.append("[");
    line.append(timestamp);
    line.append("][");
    line.append(level.name());
    line.append("][");
    line.append(target);
    line.append("] ");
    line.append(body);
    line.append("\n");
    assert(line@ =~= file_line_of(timestamp@, level, target@, body@));
    line
}

/// Renders a record for the collector.
pub fn syslog_frame(timestamp: &str, hostname: &str, level: Level, target: &str, body: &str) -> (frame:
    String)
    ensures
        frame@ == syslog_frame_of(timestamp@, hostname@, level, target@, body@),
{
    let pri = decimal(level.priority());
    let mut frame = String::new();
    frame.append("<");
    frame.append(pri.as_str());
    frame.append(">1 ");
    frame.append(timestamp);
    frame.append(" ");
    frame.append(hostname);
    frame.append(" ");
    frame.append(target);
    frame.append(" - - - [");
    frame.append(level.name());
    frame.append("] ");
    frame.append(body);
    frame.append("\n");
    assert(frame@ =~= syslog_frame_of(timestamp@, hostname@, level, target@, body@));
    frame
}

/// Names the file that a rotation at the time `stamp` opens.
pub fn rotation_file_name(stamp: &str) -> (name: String)
    ensures
        name@ == rotation_file_name_of(stamp@),
{
    let mut name = String::new();
    name.append("log_");
    name.append(stamp);
    name.append(".log");
    assert(name@ =~= rotation_file_name_of(stamp@));
    name
}

/// Tells whether a file found in the log directory is one of the logger's.
pub fn is_log_file_name(name: &str) -> (yes: bool)
    ensures
        yes == is_log_file_name_of(name@),
{
    proof {
        reveal_strlit(".log");
    }
    let n: usize = name.unicode_len();
    if n < 4 {
        return false;
    }
    let yes = name.get_char(n - 4) == '.' && name.get_char(n - 3) == 'l' && name.get_char(n - 2)
        == 'o' && name.get_char(n - 1) == 'g';
    proof {
        let tail = name@.subrange(n - 4, n as int);
        if yes {
            assert(tail =~= ".log"@);
        } else {
            assert(tail[0] == name@[n - 4]);
            assert(tail[1] == name@[n - 3]);
            assert(tail[2] == name@[n - 2]);
            assert(tail[3] == name@[n - 1]);
        }
    }
    yes
}

/// Takes the host out of a `host:port` address.
pub fn endpoint_host(endpoint: &str) -> (host: Option<String>)
    ensures
        match host {
            Some(h) => endpoint_host_of(endpoint@) == Some(h@),
            None => endpoint_host_of(endpoint@) is None,
        },
{
    match find_char(endpoint, ':') {
        Some(i) => {
            proof {
                let e = endpoint@;
                let k = choose|k: int|
                    0 <= k < e.len() && e[k] == ':' && forall|j: int| 0 <= j < k ==> e[j] != ':';
                assert(0 <= i < e.len() && e[i as int] == ':' && forall|j: int|
                    0 <= j < i ==> e[j] != ':');
                assert(k == i) by {
                    if k < i {
                        assert(e[k] != ':');
                    } else if i < k {
                        assert(e[i as int] != ':');
                    }
                }
            }
            Some(String::from_str(endpoint.substring_char(0, i)))
        },
        None => None,
    }
}

/// The opening of a frame: the priority of its level between angle brackets.
pub open spec fn priority_tag_of(level: Level) -> Seq<char> {
    "<"@ + decimal_of(level.priority_of()) + ">"@
}

/// The fields of a frame.
pub struct FrameParts {
    pub priority: Seq<char>,
    pub timestamp: Seq<char>,
    pub hostname: Seq<char>,
    pub target: Seq<char>,
    pub level: Level,
    pub body: Seq<char>,
}

impl FrameParts {
    /// The frame that the fields make: `<`, the priority, `>1`, then the time,
    /// the host and the target, each after one blank, then ` - - - [`, the
    /// level's name, `] `, the body and a line feed.
    pub open spec fn assembled(self) -> Seq<char> {
        "<"@ + self.priority + ">1 "@ + self.timestamp + " "@ + self.hostname + " "@ + self.target
            + " - - - ["@ + self.level.name_of() + "] "@ + self.body + "\n"@
    }

    /// The priority is a number of one to three digits; time, host and target
    /// are fields without white space; the body holds no line feed.
    pub open spec fn fields_ok(self) -> bool {
        &&& is_short_number(self.priority)
        &&& is_token(self.timestamp)
        &&& is_token(self.hostname)
        &&& is_token(self.target)
        &&& is_single_line(self.body)
    }
}

/// Whether `s` is one well-formed frame: it can be taken apart into fields
/// that are each of the right shape.
pub open spec fn is_syslog_frame(s: Seq<char>) -> bool {
    exists|p: FrameParts| p.fields_ok() && #[trigger] p.assembled() == s
}

/// The priority of every level is written with two digits, and is the one
/// that the table of severities gives.
pub proof fn lemma_priority_numerals(level: Level)
    ensures
        is_short_number(decimal_of(level.priority_of())),
        level == Level::Error ==> priority_tag_of(level) == "<11>"@,
        level == Level::Warn ==> priority_tag_of(level) == "<12>"@,
        level == Level::Info ==> priority_tag_of(level) == "<14>"@,
        level == Level::Debug ==> priority_tag_of(level) == "<15>"@,
        level == Level::Trace ==> priority_tag_of(level) == "<15>"@,
{
    reveal_with_fuel(decimal_of, 2);
    reveal_strlit("<");
    reveal_strlit(">");
    reveal_strlit("<11>");
    reveal_strlit("<12>");
    reveal_strlit("<14>");
    reveal_strlit("<15>");
    let d = decimal_of(level.priority_of());
    assert(d.len() == 2);
    match level {
        Level::Error => {
            assert(d =~= seq!['1', '1']);
            assert(priority_tag_of(level) =~= "<11>"@);
        },
        Level::Warn => {
            assert(d =~= seq!['1', '2']);
            assert(priority_tag_of(level) =~= "<12>"@);
        },
        Level::Info => {
            assert(d =~= seq!['1', '4']);
            assert(priority_tag_of(level) =~= "<14>"@);
        },
        Level::Debug => {
            assert(d =~= seq!['1', '5']);
            assert(priority_tag_of(level) =~= "<15>"@);
        },
        Level::Trace => {
            assert(d =~= seq!['1', '5']);
            assert(priority_tag_of(level) =~= "<15>"@);
        },
    }
}

/// Every frame begins with the priority of its record's level between angle
/// brackets, whatever the other fields hold.
pub proof fn lemma_frame_begins_with_priority(
    timestamp: Seq<char>,
    hostname: Seq<char>,
    level: Level,
    target: Seq<char>,
    body: Seq<char>,
)
    ensures
        priority_tag_of(level).is_prefix_of(
            syslog_frame_of(timestamp, hostname, level, target, body),
        ),
{
    reveal_strlit(">");
    reveal_strlit(">1 ");
    let frame = syslog_frame_of(timestamp, hostname, level, target, body);
    let tag = priority_tag_of(level);
    let open = "<"@ + decimal_of(level.priority_of());
    let tail = timestamp + " "@ + hostname + " "@ + target + " - - - ["@ + level.name_of() + "] "@
        + body + "\n"@;
    assert(frame =~= open + ">1 "@ + tail);
    assert(tag.len() <= frame.len());
    assert(frame.subrange(0, tag.len() as int) =~= tag);
}

/// A frame is well formed whenever the time, the host and the target are
/// fields without white space and the body holds no line feed.
pub proof fn lemma_frame_is_well_formed(
    timestamp: Seq<char>,
    hostname: Seq<char>,
    level: Level,
    target: Seq<char>,
    body: Seq<char>,
)
    requires
        is_token(timestamp),
        is_token(hostname),
        is_token(target),
        is_single_line(body),
    ensures
        is_syslog_frame(syslog_frame_of(timestamp, hostname, level, target, body)),
{
    lemma_priority_numerals(level);
    let p = FrameParts {
        priority: decimal_of(level.priority_of()),
        timestamp,
        hostname,
        target,
        level,
        body,
    };
    assert(p.fields_ok());
    assert(p.assembled() == syslog_frame_of(timestamp, hostname, level, target, body));
}

/// The `k`-th name for a file opened at the time that `stamp` writes: the
/// plain name first, then the name with `_1`, `_2` and so on after the stamp.
pub open spec fn numbered_file_name_of(stamp: Seq<char>, k: nat) -> Seq<char> {
    if k == 0 {
        rotation_file_name_of(stamp)
    } else {
        "log_"@ + stamp + "_"@ + decimal_of(k) + ".log"@
    }
}

/// Writes the `k`-th name for a file opened at the time `stamp`.
pub fn numbered_file_name(stamp: &str, k: u128) -> (name: String)
    ensures
        name@ == numbered_file_name_of(stamp@, k as nat),
{
    if k == 0 {
        return rotation_file_name(stamp);
    }
    let number = decimal_wide(k);
    let mut name = String::new();
    name.append("log_");
    name.append(stamp);
    name.append("_");
    name.append(number.as_str());
    name.append(".log");
    assert(name@ =~= numbered_file_name_of(stamp@, k as nat));
    name
}

/// The names for one stamp are all different.
pub proof fn lemma_numbered_names_differ(stamp: Seq<char>, j: nat, k: nat)
    requires
        j != k,
    ensures
        numbered_file_name_of(stamp, j) != numbered_file_name_of(stamp, k),
{
    lemma_decimal_nonempty(j);
    lemma_decimal_nonempty(k);
    let a = numbered_file_name_of(stamp, j);
    let b = numbered_file_name_of(stamp, k);
    if a == b {
        if j == 0 || k == 0 {
            assert(a.len() != b.len());
        } else {
            let head = "log_"@ + stamp + "_"@;
            let dj = decimal_of(j);
            let dk = decimal_of(k);
            assert(a =~= head + dj + ".log"@);
            assert(b =~= head + dk + ".log"@);
            assert(dj.len() == dk.len());
            assert forall|i: int| 0 <= i < dj.len() implies dj[i] == dk[i] by {
                assert(a[head.len() + i] == dj[i]);
                assert(b[head.len() + i] == dk[i]);
            }
            assert(dj =~= dk);
            lemma_decimal_injective(j, k);
        }
    }
}

} // verus!
