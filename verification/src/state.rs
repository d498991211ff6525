//! What the daemon remembers across restarts.
//!
//! Charge and power limits do not survive a reboot, so the desired values live here. So
//! does the observed firmware floor: losing it would bring the loud cold-start model back
//! until the daemon has watched another heating cycle.
//!
//! The format is trivial `key=value` lines. A damaged entry is skipped rather than failing
//! the whole file.

use vstd::prelude::*;
use crate::board::{identify_name, Board, BoardProfile};
use crate::caps::text_of;
use crate::editor::{as_cli_argument, cli_text, pair_text};
use crate::number::{
    decimal,
    decimal_reads_back,
    decimal_reads_back_in_milli,
    decimal_text,
    is_digit,
    lemma_decimal,
    lemma_thousandths,
    milli,
    no_places,
    parse_milli,
    parse_up_to,
    thousandths,
    thousandths_read_back,
    unsigned,
};
use crate::text::{
    halves,
    is_line,
    is_white,
    lemma_before,
    lemma_halves,
    lemma_lines,
    lemma_parts_one,
    lemma_parts_push,
    lemma_trimmed_same,
    lines,
    lines_of,
    parts,
    same,
    split,
    split_once,
    trim,
    trimmed,
    trimming_drops_the_white_space_around,
    unlined,
    views,
};

verus! {

pub const STATE_DIR: &'static str = "/var/lib/fw-helper";

pub const STATE_FILE: &'static str = "state";

#[derive(Debug, Default, Clone, PartialEq, Eq)]
pub struct State {
    pub charge_limit: Option<u8>,
    /// Sustained CPU power limit in watts.
    pub power_limit: Option<u32>,
    /// Active profile name, re-applied at startup.
    pub profile: Option<String>,
    /// Profiles to switch to when the power source changes. Both `None` means that the
    /// feature is off.
    pub profile_on_ac: Option<String>,
    pub profile_on_battery: Option<String>,
    /// Observed firmware duty by temperature, in thousandths of a degree.
    pub floor: Vec<(i64, u8)>,
    /// DMI board name the floor was learned on. The state file moves with the disk, so
    /// without this a floor learned on one board would bound the fan of the next.
    pub floor_board: Option<String>,
}

/// What a [`State`] says.
#[verifier::ext_equal]
pub struct Remembered {
    pub charge_limit: Option<u8>,
    pub power_limit: Option<u32>,
    pub profile: Option<Seq<char>>,
    pub profile_on_ac: Option<Seq<char>>,
    pub profile_on_battery: Option<Seq<char>>,
    pub floor: Seq<(i64, u8)>,
    pub floor_board: Option<Seq<char>>,
}

impl View for State {
    type V = Remembered;

    open spec fn view(&self) -> Remembered {
        Remembered {
            charge_limit: self.charge_limit,
            power_limit: self.power_limit,
            profile: text_of(self.profile),
            profile_on_ac: text_of(self.profile_on_ac),
            profile_on_battery: text_of(self.profile_on_battery),
            floor: self.floor@,
            floor_board: text_of(self.floor_board),
        }
    }
}

pub open spec fn nothing_remembered() -> Remembered {
    Remembered {
        charge_limit: None,
        power_limit: None,
        profile: None,
        profile_on_ac: None,
        profile_on_battery: None,
        floor: seq![],
        floor_board: None,
    }
}

/// Whether a stored floor may be used on the current board.
///
/// Carried across boards only where both have the same measurements. A floor without a
/// board on record can only have been learned on the Intel board, and is kept there.
pub open spec fn floor_fits(floor_board: Option<Seq<char>>, current: Option<BoardProfile>) -> bool {
    current matches Some(p) && match floor_board {
        Some(name) => learned_name(name) == Some(p.name@),
        None => p.name@ == "Framework 13 Pro (Intel Core Ultra Series 3)"@,
    }
}

/// The measurements that a board of this name has, by their name.
pub open spec fn learned_name(name: Seq<char>) -> Option<Seq<char>> {
    if crate::board::intel_measured(name) {
        Some("Framework 13 Pro (Intel Core Ultra Series 3)"@)
    } else if crate::board::amd_measured(name) {
        Some("Framework 13 (AMD Ryzen AI 300)"@)
    } else if crate::board::intel_family(name) {
        Some("Framework 13 Pro (Intel Core Ultra Series 3)"@)
    } else if crate::board::amd_family(name) {
        Some("Framework 13 (AMD Ryzen AI 300)"@)
    } else {
        None
    }
}

/// Whether a stored floor may be used on `current`.
pub fn floor_applies(floor_board: Option<&str>, current: &Board) -> (r: bool)
    ensures
        r == floor_fits(
            match floor_board {
                Some(n) => Some(n@),
                None => None,
            },
            match *current {
                Board::Measured(p) => Some(p),
                Board::Family(p, _) => Some(p),
                Board::Unknown => None,
            },
        ),
{
    let current = match current.profile() {
        None => {
            return false;
        },
        Some(p) => p,
    };
    match floor_board {
        Some(name) => match identify_name(name).profile() {
            Some(learned) => same(learned.name, current.name),
            None => false,
        },
        None => same(current.name, crate::board::intel_core_ultra_3().name),
    }
}

/// One `temperature:duty` pair of a floor, where it is one.
pub open spec fn floor_pair(pair: Seq<char>) -> Option<(i64, u8)> {
    match halves(trimmed(pair), ':') {
        None => None,
        Some((c, d)) => match (milli(trimmed(c), false), unsigned(trimmed(d), u8::MAX as nat)) {
            (Some(c), Ok(d)) => Some((c as i64, d as u8)),
            _ => None,
        },
    }
}

/// The pairs among the first `n` parts, damaged ones left out.
pub open spec fn floor_pairs(ps: Seq<Seq<char>>, n: int) -> Seq<(i64, u8)>
    decreases n,
{
    if n <= 0 {
        seq![]
    } else {
        match floor_pair(ps[n - 1]) {
            Some(p) => floor_pairs(ps, n - 1).push(p),
            None => floor_pairs(ps, n - 1),
        }
    }
}

/// The floor that a list of pairs describes.
pub open spec fn floor_in(value: Seq<char>) -> Seq<(i64, u8)> {
    floor_pairs(parts(value, ','), parts(value, ',').len() as int)
}

/// A value, unless it is empty.
pub open spec fn unless_empty(s: Seq<char>) -> Option<Seq<char>> {
    if s.len() == 0 {
        None
    } else {
        Some(s)
    }
}

/// What one line changes. Comments, lines without a key and unknown keys change nothing.
pub open spec fn with_line(s: Remembered, line: Seq<char>) -> Remembered {
    let body = trimmed(line);
    if body.len() == 0 || body[0] == '#' {
        s
    } else {
        match halves(body, '=') {
            None => s,
            Some((k, v)) => with_key(s, trimmed(k), v),
        }
    }
}

pub open spec fn with_key(s: Remembered, key: Seq<char>, value: Seq<char>) -> Remembered {
    if key == "charge_limit"@ {
        Remembered {
            charge_limit: match unsigned(trimmed(value), u8::MAX as nat) {
                Ok(n) => Some(n as u8),
                Err(_) => None,
            },
            ..s
        }
    } else if key == "power_limit"@ {
        Remembered {
            power_limit: match unsigned(trimmed(value), u32::MAX as nat) {
                Ok(n) => Some(n as u32),
                Err(_) => None,
            },
            ..s
        }
    } else if key == "profile"@ {
        Remembered { profile: unless_empty(trimmed(value)), ..s }
    } else if key == "profile_on_ac"@ {
        Remembered { profile_on_ac: unless_empty(trimmed(value)), ..s }
    } else if key == "profile_on_battery"@ {
        Remembered { profile_on_battery: unless_empty(trimmed(value)), ..s }
    } else if key == "fan_floor"@ {
        Remembered { floor: floor_in(value), ..s }
    } else if key == "fan_floor_board"@ {
        Remembered { floor_board: unless_empty(trimmed(value)), ..s }
    } else {
        s
    }
}

/// What a list of lines says.
pub open spec fn loaded(ls: Seq<Seq<char>>) -> Remembered
    decreases ls.len(),
{
    if ls.len() == 0 {
        nothing_remembered()
    } else {
        with_line(loaded(ls.drop_last()), ls.last())
    }
}

pub open spec fn option_line(key: Seq<char>, value: Option<Seq<char>>) -> Seq<Seq<char>> {
    match value {
        Some(v) => seq![key + v],
        None => seq![],
    }
}

/// The lines a state is written as. A floor's board is only worth writing with a floor.
pub open spec fn state_lines(s: Remembered) -> Seq<Seq<char>> {
    seq!["# written by fw-helperd"@] + option_line(
        "charge_limit="@,
        match s.charge_limit {
            Some(v) => Some(decimal(v as nat)),
            None => None,
        },
    ) + option_line(
        "power_limit="@,
        match s.power_limit {
            Some(v) => Some(decimal(v as nat)),
            None => None,
        },
    ) + option_line("profile="@, s.profile) + option_line("profile_on_ac="@, s.profile_on_ac)
        + option_line("profile_on_battery="@, s.profile_on_battery) + (if s.floor.len() == 0 {
        seq![]
    } else {
        seq!["fan_floor="@ + cli_text(s.floor)] + option_line("fan_floor_board="@, s.floor_board)
    })
}

/// Parse `55:0,60:40,...`. Malformed entries are skipped rather than failing the whole: a
/// damaged floor costs some quiet, while losing the file would lose the charge limit too.
pub fn parse_floor(value: &str) -> (r: Vec<(i64, u8)>)
    ensures
        r@ == floor_in(value@),
{
    let pairs = split(value, ',');
    let ghost all = parts(value@, ',');
    let mut out: Vec<(i64, u8)> = Vec::new();
    let mut i: usize = 0;
    assert(views(pairs@).len() == pairs@.len());
    while i < pairs.len()
        invariant
            i <= pairs@.len(),
            views(pairs@) == all,
            out@ == floor_pairs(all, i as int),
        decreases pairs@.len() - i,
    {
        assert(all[i as int] == pairs@[i as int]@);
        if let Some((c, d)) = split_once(trim(pairs[i]), ':') {
            if let Some(celsius) = parse_milli(trim(c)) {
                if let Ok(duty) = parse_up_to(trim(d), u8::MAX as u64) {
                    out.push((celsius, duty as u8));
                }
            }
        }
        i = i + 1;
    }
    out
}

fn non_empty(v: &str) -> (r: Option<String>)
    ensures
        text_of(r) == unless_empty(v@),
{
    if v.unicode_len() == 0 {
        None
    } else {
        Some(v.to_owned())
    }
}

/// Appends `key`, the value and a line feed.
fn push_line(out: &mut String, key: &str, value: &str)
    ensures
        final(out)@ == old(out)@ + (key@ + value@).push('\n'),
{
    proof {
        reveal_strlit("\n");
        assert("\n"@ =~= seq!['\n']);
    }
    let ghost had = out@;
    out.append(key);
    out.append(value);
    out.append("\n");
    assert(out@ =~= had + (key@ + value@).push('\n'));
}

fn push_option(out: &mut String, key: &str, value: &Option<String>, above: Ghost<Seq<Seq<char>>>)
    requires
        old(out)@ == unlined(above@),
    ensures
        final(out)@ == unlined(above@ + option_line(key@, text_of(*value))),
{
    let ghost ls = above@;
    match value {
        Some(v) => {
            push_line(out, key, v.as_str());
            proof {
                let all = ls + option_line(key@, text_of(*value));
                assert(all.drop_last() =~= ls);
            }
        },
        None => {
            assert(ls + option_line(key@, text_of(*value)) =~= ls);
        },
    }
}

impl State {
    /// What a state file said; one that could not be read says nothing.
    pub fn load(text: Option<&str>) -> (r: Self)
        ensures
            match text {
                Some(t) => r@ == loaded(lines_of(t@)),
                None => r@ == nothing_remembered(),
            },
    {
        let mut s = State {
            charge_limit: None,
            power_limit: None,
            profile: None,
            profile_on_ac: None,
            profile_on_battery: None,
            floor: Vec::new(),
            floor_board: None,
        };
        let text = match text {
            None => {
                return s;
            },
            Some(t) => t,
        };
        let ls = lines(text);
        let ghost all = lines_of(text@);
        let mut i: usize = 0;
        assert(views(ls@).len() == ls@.len());
        assert(all.take(0) =~= seq![]);
        while i < ls.len()
            invariant
                i <= ls@.len(),
                views(ls@) == all,
                s@ == loaded(all.take(i as int)),
            decreases ls@.len() - i,
        {
            proof {
                let next = all.take(i + 1);
                assert(next.drop_last() =~= all.take(i as int));
                assert(next.last() == ls@[i as int]@);
            }
            s.read_line(ls[i]);
            i = i + 1;
        }
        assert(all.take(i as int) =~= all);
        s
    }

    fn read_line(&mut self, line: &str)
        ensures
            final(self)@ == with_line(old(self)@, line@),
    {
        let body = trim(line);
        if body.unicode_len() == 0 || body.get_char(0) == '#' {
            return ;
        }
        let (key, value) = match split_once(body, '=') {
            None => {
                return ;
            },
            Some((k, v)) => (trim(k), v),
        };
        if same(key, "charge_limit") {
            self.charge_limit =
            match parse_up_to(trim(value), u8::MAX as u64) {
                Ok(n) => Some(n as u8),
                Err(_) => None,
            };
        } else if same(key, "power_limit") {
            self.power_limit =
            match parse_up_to(trim(value), u32::MAX as u64) {
                Ok(n) => Some(n as u32),
                Err(_) => None,
            };
        } else if same(key, "profile") {
            self.profile = non_empty(trim(value));
        } else if same(key, "profile_on_ac") {
            self.profile_on_ac = non_empty(trim(value));
        } else if same(key, "profile_on_battery") {
            self.profile_on_battery = non_empty(trim(value));
        } else if same(key, "fan_floor") {
            self.floor = parse_floor(value);
        } else if same(key, "fan_floor_board") {
            self.floor_board = non_empty(trim(value));
        }
    }

    /// The text to write.
    pub fn save(&self) -> (r: String)
        ensures
            r@ == unlined(state_lines(self@)),
    {
        proof {
            reveal_strlit("");
            assert(""@ =~= seq![]);
        }
        let mut out = "".to_owned();
        let ghost mut ls: Seq<Seq<char>> = seq![];
        push_line(&mut out, "# written by fw-helperd", "");
        proof {
            let first = seq!["# written by fw-helperd"@];
            assert(first.drop_last() =~= ls);
            assert("# written by fw-helperd"@ + ""@ =~= "# written by fw-helperd"@);
            reveal_with_fuel(unlined, 2);
            assert(out@ =~= unlined(first));
            ls = first;
        }
        let charge = match self.charge_limit {
            Some(v) => Some(decimal_text(v as u64)),
            None => None,
        };
        push_option(&mut out, "charge_limit=", &charge, Ghost(ls));
        proof {
            ls = ls + option_line("charge_limit="@, text_of(charge));
        }
        let power = match self.power_limit {
            Some(v) => Some(decimal_text(v as u64)),
            None => None,
        };
        push_option(&mut out, "power_limit=", &power, Ghost(ls));
        proof {
            ls = ls + option_line("power_limit="@, text_of(power));
        }
        push_option(&mut out, "profile=", &self.profile, Ghost(ls));
        proof {
            ls = ls + option_line("profile="@, self@.profile);
        }
        push_option(&mut out, "profile_on_ac=", &self.profile_on_ac, Ghost(ls));
        proof {
            ls = ls + option_line("profile_on_ac="@, self@.profile_on_ac);
        }
        push_option(&mut out, "profile_on_battery=", &self.profile_on_battery, Ghost(ls));
        proof {
            ls = ls + option_line("profile_on_battery="@, self@.profile_on_battery);
        }
        if self.floor.len() > 0 {
            let pairs = Some(as_cli_argument(self.floor.as_slice()));
            push_option(&mut out, "fan_floor=", &pairs, Ghost(ls));
            proof {
                ls = ls + option_line("fan_floor="@, text_of(pairs));
            }
            push_option(&mut out, "fan_floor_board=", &self.floor_board, Ghost(ls));
            proof {
                ls = ls + option_line("fan_floor_board="@, self@.floor_board);
            }
        }
        assert(ls =~= state_lines(self@));
        out
    }
}

/// A name that stands on a line and reads back from it: not empty, no white space around
/// it, no line feed in it.
pub open spec fn plain(v: Seq<char>) -> bool {
    &&& v.len() > 0
    &&& !is_white(v[0])
    &&& !is_white(v.last())
    &&& forall|i: int| 0 <= i < v.len() ==> v[i] != '\n'
}

pub open spec fn plain_if_any(v: Option<Seq<char>>) -> bool {
    v matches Some(v) ==> plain(v)
}

/// Whether a pair is at a whole degree that is not negative, as every observed one is.
pub open spec fn whole(p: (i64, u8)) -> bool {
    0 <= p.0 && p.0 % 1000 == 0
}

proof fn lemma_floor_pair(p: (i64, u8))
    requires
        whole(p),
    ensures
        floor_pair(pair_text(p)) == Some(p),
        plain(pair_text(p)),
        forall|i: int| 0 <= i < pair_text(p).len() ==> pair_text(p)[i] != ',',
{
    let k = (p.0 / 1000) as nat;
    let t = decimal(k);
    let d = decimal(p.1 as nat);
    let w = t + seq![':'] + d;
    assert(no_places(p.0 as int) =~= t);
    assert(pair_text(p) =~= w);
    lemma_decimal(k);
    lemma_decimal(p.1 as nat);
    assert(is_digit(t[0]) && is_digit(t.last()) && is_digit(d[0]) && is_digit(d.last()));
    assert(w[0] == t[0] && w.last() == d.last());
    lemma_trimmed_same(w);
    lemma_trimmed_same(t);
    lemma_trimmed_same(d);
    assert forall|i: int| 0 <= i < t.len() implies t[i] != ':' by {
        assert(is_digit(t[i]));
    }
    lemma_halves(t, ':', d);
    decimal_reads_back_in_milli(k, false);
    decimal_reads_back(p.1 as nat, u8::MAX as nat);
    assert forall|i: int| 0 <= i < w.len() implies w[i] != ',' && w[i] != '\n' by {
        if i < t.len() {
            assert(is_digit(t[i]));
        } else if i > t.len() {
            assert(is_digit(d[i - t.len() - 1]));
        }
    }
}

proof fn lemma_floor_pairs_prefix(had: Seq<Seq<char>>, last: Seq<char>, n: int)
    requires
        0 <= n <= had.len(),
    ensures
        floor_pairs(had.push(last), n) == floor_pairs(had, n),
    decreases n,
{
    if n > 0 {
        lemma_floor_pairs_prefix(had, last, n - 1);
        assert(had.push(last)[n - 1] == had[n - 1]);
    }
}

/// A floor at whole degrees reads back as itself.
proof fn lemma_floor_reads_back(s: Seq<(i64, u8)>)
    requires
        s.len() > 0,
        forall|i: int| 0 <= i < s.len() ==> whole(#[trigger] s[i]),
    ensures
        floor_in(cli_text(s)) == s,
        plain(cli_text(s)),
    decreases s.len(),
{
    let n = s.len() as int;
    let last = pair_text(s.last());
    lemma_floor_pair(s.last());
    if n == 1 {
        lemma_parts_one(last, ',');
        reveal_with_fuel(floor_pairs, 2);
        assert(floor_in(cli_text(s)) =~= s);
    } else {
        let t = s.drop_last();
        lemma_floor_reads_back(t);
        let had = parts(cli_text(t), ',');
        lemma_parts_push(cli_text(t), ',', last);
        lemma_floor_pairs_prefix(had, last, had.len() as int);
        let all = had.push(last);
        assert(parts(cli_text(s), ',') == all);
        assert(all[all.len() - 1] == last);
        assert(t.push(s.last()) =~= s);
        let w = cli_text(s);
        assert(w[0] == cli_text(t)[0]);
        assert(w.last() == last.last());
        assert forall|i: int| 0 <= i < w.len() implies w[i] != '\n' by {
            if i < cli_text(t).len() {
                assert(w[i] == cli_text(t)[i]);
            } else if i > cli_text(t).len() {
                assert(w[i] == last[i - cli_text(t).len() - 1]);
            }
        }
    }
}

/// One written line reads back as its key and value.
proof fn lemma_option(ls: Seq<Seq<char>>, key: Seq<char>, keyed: Seq<char>, v: Seq<char>)
    requires
        keyed == key.push('='),
        key.len() > 0,
        key[0] != '#',
        !is_white(key[0]),
        !is_white(key.last()),
        forall|i: int| 0 <= i < key.len() ==> key[i] != '=' && key[i] != '\n',
        plain(v),
    ensures
        loaded(ls + seq![keyed + v]) == with_key(loaded(ls), key, v),
        is_line(keyed + v),
        trimmed(v) == v,
{
    let line = keyed + v;
    let all = ls + seq![line];
    assert(all.drop_last() =~= ls);
    assert(all.last() == line);
    assert(line =~= key + seq!['='] + v);
    assert(line[0] == key[0]);
    assert(line.last() == v.last());
    lemma_trimmed_same(line);
    lemma_trimmed_same(key);
    lemma_trimmed_same(v);
    lemma_halves(key, '=', v);
    assert forall|i: int| 0 <= i < line.len() implies line[i] != '\n' by {
        if i < key.len() {
            assert(line[i] == key[i]);
        } else if i > key.len() {
            assert(line[i] == v[i - key.len() - 1]);
        }
    }
}

proof fn lemma_keys()
    ensures
        "charge_limit="@ == "charge_limit"@.push('='),
        "power_limit="@ == "power_limit"@.push('='),
        "profile="@ == "profile"@.push('='),
        "profile_on_ac="@ == "profile_on_ac"@.push('='),
        "profile_on_battery="@ == "profile_on_battery"@.push('='),
        "fan_floor="@ == "fan_floor"@.push('='),
        "fan_floor_board="@ == "fan_floor_board"@.push('='),
        key_text("charge_limit"@, 12),
        key_text("power_limit"@, 11),
        key_text("profile"@, 7),
        key_text("profile_on_ac"@, 13),
        key_text("profile_on_battery"@, 18),
        key_text("fan_floor"@, 9),
        key_text("fan_floor_board"@, 15),
{
    reveal_strlit("charge_limit=");
    reveal_strlit("power_limit=");
    reveal_strlit("profile=");
    reveal_strlit("profile_on_ac=");
    reveal_strlit("profile_on_battery=");
    reveal_strlit("fan_floor=");
    reveal_strlit("fan_floor_board=");
    reveal_strlit("charge_limit");
    reveal_strlit("power_limit");
    reveal_strlit("profile");
    reveal_strlit("profile_on_ac");
    reveal_strlit("profile_on_battery");
    reveal_strlit("fan_floor");
    reveal_strlit("fan_floor_board");
    assert("charge_limit="@ =~= "charge_limit"@.push('='));
    assert("power_limit="@ =~= "power_limit"@.push('='));
    assert("profile="@ =~= "profile"@.push('='));
    assert("profile_on_ac="@ =~= "profile_on_ac"@.push('='));
    assert("profile_on_battery="@ =~= "profile_on_battery"@.push('='));
    assert("fan_floor="@ =~= "fan_floor"@.push('='));
    assert("fan_floor_board="@ =~= "fan_floor_board"@.push('='));
}

/// Whether a text can be a key, and how long it is.
spec fn key_text(key: Seq<char>, len: int) -> bool {
    &&& key.len() == len
    &&& len > 0
    &&& key[0] != '#'
    &&& !is_white(key[0])
    &&& !is_white(key.last())
    &&& forall|i: int| 0 <= i < key.len() ==> key[i] != '=' && key[i] != '\n'
}

proof fn lemma_decimal_plain(n: nat)
    ensures
        plain(decimal(n)),
{
    lemma_decimal(n);
    let s = decimal(n);
    assert(is_digit(s[0]) && is_digit(s.last()));
    assert forall|i: int| 0 <= i < s.len() implies s[i] != '\n' by {
        assert(is_digit(s[i]));
    }
}

spec fn all_lines(ls: Seq<Seq<char>>) -> bool {
    forall|i: int| 0 <= i < ls.len() ==> is_line(#[trigger] ls[i])
}

/// What one optional line adds.
proof fn lemma_stage(ls: Seq<Seq<char>>, key: Seq<char>, keyed: Seq<char>, v: Option<Seq<char>>)
    requires
        keyed == key.push('='),
        key_text(key, key.len() as int),
        plain_if_any(v),
        all_lines(ls),
    ensures
        loaded(ls + option_line(keyed, v)) == (match v {
            Some(v) => with_key(loaded(ls), key, v),
            None => loaded(ls),
        }),
        v matches Some(v) ==> trimmed(v) == v,
        all_lines(ls + option_line(keyed, v)),
{
    match v {
        Some(v) => {
            lemma_option(ls, key, keyed, v);
            let all = ls + option_line(keyed, Some(v));
            assert(all =~= ls + seq![keyed + v]);
            assert forall|i: int| 0 <= i < all.len() implies is_line(#[trigger] all[i]) by {
                if i < ls.len() {
                    assert(all[i] == ls[i]);
                }
            }
        },
        None => {
            assert(ls + option_line(keyed, v) =~= ls);
        },
    }
}

spec fn charge_text(s: Remembered) -> Option<Seq<char>> {
    match s.charge_limit {
        Some(v) => Some(decimal(v as nat)),
        None => None,
    }
}

spec fn power_text(s: Remembered) -> Option<Seq<char>> {
    match s.power_limit {
        Some(v) => Some(decimal(v as nat)),
        None => None,
    }
}

/// The header and the two limits.
spec fn limit_lines(s: Remembered) -> Seq<Seq<char>> {
    seq!["# written by fw-helperd"@] + option_line("charge_limit="@, charge_text(s)) + option_line(
        "power_limit="@,
        power_text(s),
    )
}

proof fn lemma_limits(s: Remembered)
    ensures
        all_lines(limit_lines(s)),
        loaded(limit_lines(s)) == (Remembered {
            charge_limit: s.charge_limit,
            power_limit: s.power_limit,
            ..nothing_remembered()
        }),
{
    lemma_keys();
    let header = "# written by fw-helperd"@;
    reveal_strlit("# written by fw-helperd");
    let l0 = seq![header];
    assert(l0.drop_last() =~= seq![]);
    assert(header[0] == '#' && !is_white(header.last()));
    lemma_trimmed_same(header);
    assert(loaded(l0) == nothing_remembered()) by {
        reveal_with_fuel(loaded, 2);
    }
    assert(is_line(header));
    if let Some(v) = s.charge_limit {
        lemma_decimal_plain(v as nat);
        decimal_reads_back(v as nat, u8::MAX as nat);
    }
    lemma_stage(l0, "charge_limit"@, "charge_limit="@, charge_text(s));
    let l1 = l0 + option_line("charge_limit="@, charge_text(s));
    if let Some(v) = s.power_limit {
        lemma_decimal_plain(v as nat);
        decimal_reads_back(v as nat, u32::MAX as nat);
    }
    lemma_stage(l1, "power_limit"@, "power_limit="@, power_text(s));
}

proof fn lemma_names(ls: Seq<Seq<char>>, s: Remembered)
    requires
        all_lines(ls),
        plain_if_any(s.profile),
        plain_if_any(s.profile_on_ac),
        plain_if_any(s.profile_on_battery),
        loaded(ls).profile is None,
        loaded(ls).profile_on_ac is None,
        loaded(ls).profile_on_battery is None,
    ensures
        ({
            let all = ls + option_line("profile="@, s.profile) + option_line(
                "profile_on_ac="@,
                s.profile_on_ac,
            ) + option_line("profile_on_battery="@, s.profile_on_battery);
            all_lines(all) && loaded(all) == (Remembered {
                profile: s.profile,
                profile_on_ac: s.profile_on_ac,
                profile_on_battery: s.profile_on_battery,
                ..loaded(ls)
            })
        }),
{
    lemma_keys();
    lemma_stage(ls, "profile"@, "profile="@, s.profile);
    let l1 = ls + option_line("profile="@, s.profile);
    lemma_stage(l1, "profile_on_ac"@, "profile_on_ac="@, s.profile_on_ac);
    let l2 = l1 + option_line("profile_on_ac="@, s.profile_on_ac);
    lemma_stage(l2, "profile_on_battery"@, "profile_on_battery="@, s.profile_on_battery);
}

/// What is saved is what is loaded, for names that a line can hold and a floor at whole
/// degrees. A floor's board is kept with its floor.
pub proof fn a_state_survives_a_restart(s: Remembered)
    requires
        plain_if_any(s.profile),
        plain_if_any(s.profile_on_ac),
        plain_if_any(s.profile_on_battery),
        plain_if_any(s.floor_board),
        forall|i: int| 0 <= i < s.floor.len() ==> whole(#[trigger] s.floor[i]),
    ensures
        loaded(lines_of(unlined(state_lines(s)))) == (Remembered {
            floor_board: if s.floor.len() == 0 {
                None
            } else {
                s.floor_board
            },
            ..s
        }),
{
    lemma_keys();
    lemma_limits(s);
    lemma_names(limit_lines(s), s);
    let ls = limit_lines(s) + option_line("profile="@, s.profile) + option_line(
        "profile_on_ac="@,
        s.profile_on_ac,
    ) + option_line("profile_on_battery="@, s.profile_on_battery);
    let all = state_lines(s);
    if s.floor.len() > 0 {
        let pairs = cli_text(s.floor);
        lemma_floor_reads_back(s.floor);
        lemma_stage(ls, "fan_floor"@, "fan_floor="@, Some(pairs));
        let floor = ls + option_line("fan_floor="@, Some(pairs));
        lemma_stage(floor, "fan_floor_board"@, "fan_floor_board="@, s.floor_board);
        assert(all =~= floor + option_line("fan_floor_board="@, s.floor_board));
    } else {
        assert(all =~= ls);
        assert(s.floor =~= seq![]);
    }
    lemma_lines(all);
}

/// Every floor that a monitor of firmware lists is at whole degrees, so it survives a
/// restart.
pub proof fn listed_floors_are_whole(s: Seq<Option<u8>>, n: int)
    requires
        n <= crate::floor::BUCKETS,
    ensures
        forall|i: int|
            0 <= i < crate::floor::listed(s, n).len() ==> whole(
                #[trigger] crate::floor::listed(s, n)[i],
            ),
    decreases n,
{
    if n > 0 {
        listed_floors_are_whole(s, n - 1);
        let (had, now) = (crate::floor::listed(s, n - 1), crate::floor::listed(s, n));
        assert forall|i: int| 0 <= i < now.len() implies whole(#[trigger] now[i]) by {
            if i < had.len() {
                assert(now[i] == had[i]);
            }
        }
    }
}

/// A floor's list is read pair by pair: one more at its end adds that pair, to the thousandth of
/// a degree, and what is no pair adds nothing.
pub proof fn a_damaged_pair_costs_only_itself(a: Seq<char>, b: Seq<char>, m: nat, n: nat)
    requires
        forall|i: int| 0 <= i < b.len() ==> b[i] != ',',
        m <= i64::MAX,
    ensures
        floor_pair(b) is None ==> floor_in(a + seq![','] + b) == floor_in(a),
        floor_pair(b) matches Some(p) ==> floor_in(a + seq![','] + b) == floor_in(a).push(p),
        n <= 255 ==> floor_pair(thousandths(m) + seq![':'] + decimal(n)) == Some(
            (m as i64, n as u8),
        ),
        n > 255 ==> floor_pair(thousandths(m) + seq![':'] + decimal(n)) is None,
        (forall|i: int| 0 <= i < b.len() ==> b[i] != ':') ==> floor_pair(b) is None,
{
    lemma_parts_push(a, ',', b);
    let ps = parts(a, ',');
    lemma_floor_pairs_same(ps, ps.push(b), ps.len() as int);
    let (t, d) = (thousandths(m), decimal(n));
    lemma_thousandths(m);
    lemma_decimal(n);
    assert(is_digit(d[0]) && is_digit(d.last()));
    let w = t + seq![':'] + d;
    assert(w[0] == t[0] && w.last() == d.last());
    lemma_trimmed_same(w);
    lemma_trimmed_same(t);
    lemma_trimmed_same(d);
    assert forall|i: int| 0 <= i < t.len() implies t[i] != ':' by {
        assert(is_digit(t[i]) || t[i] == '.');
    }
    lemma_halves(t, ':', d);
    thousandths_read_back(m, false);
    decimal_reads_back(n, u8::MAX as nat);
    if forall|i: int| 0 <= i < b.len() ==> b[i] != ':' {
        let ends = trimming_drops_the_white_space_around(b);
        let c = trimmed(b);
        assert forall|i: int| 0 <= i < c.len() implies c[i] != ':' by {
            assert(c[i] == b[ends.0 + i]);
        }
        lemma_before(c, ':', c.len());
    }
}

proof fn lemma_floor_pairs_same(a: Seq<Seq<char>>, b: Seq<Seq<char>>, n: int)
    requires
        0 <= n <= a.len(),
        n <= b.len(),
        forall|i: int| 0 <= i < n ==> a[i] == b[i],
    ensures
        floor_pairs(a, n) == floor_pairs(b, n),
    decreases n,
{
    if n > 0 {
        lemma_floor_pairs_same(a, b, n - 1);
    }
}

/// A floor is used on a board with the measurements of the board that it was learned on, which
/// the start of the board's name decides. Without a name it was learned on the Intel board.
pub proof fn a_floor_stays_with_its_measurements(name: Seq<char>, p: BoardProfile)
    requires
        p.is_intel() || p.is_amd(),
    ensures
        p.is_intel() ==> (floor_fits(Some(name), Some(p)) <==> "FRANMJCP"@.is_prefix_of(name)),
        p.is_amd() ==> (floor_fits(Some(name), Some(p)) <==> "FRANMGCP"@.is_prefix_of(name)),
        p.is_intel() ==> floor_fits(None, Some(p)),
        p.is_amd() ==> !floor_fits(None, Some(p)),
        !floor_fits(Some(name), None) && !floor_fits(None, None),
{
    reveal_strlit("FRANMJCP");
    reveal_strlit("FRANMGCP");
    reveal_strlit("FRANMJCP07");
    reveal_strlit("FRANMGCP05");
    reveal_strlit("FRANMGCP09");
    reveal_strlit("Framework 13 Pro (Intel Core Ultra Series 3)");
    reveal_strlit("Framework 13 (AMD Ryzen AI 300)");
    assert("FRANMJCP"@.is_prefix_of("FRANMJCP07"@));
    assert("FRANMGCP"@.is_prefix_of("FRANMGCP05"@));
    assert("FRANMGCP"@.is_prefix_of("FRANMGCP09"@));
    assert("FRANMJCP"@[5] == 'J' && "FRANMGCP"@[5] == 'G');
    assert("FRANMJCP"@.is_prefix_of(name) ==> name[5] == 'J');
    assert("FRANMGCP"@.is_prefix_of(name) ==> name[5] == 'G');
    assert("Framework 13 Pro (Intel Core Ultra Series 3)"@.len()
        != "Framework 13 (AMD Ryzen AI 300)"@.len());
}

/// Comments, empty lines, lines without an equals sign and unknown keys change nothing.
pub proof fn what_says_nothing_changes_nothing(s: Remembered, line: Seq<char>, key: Seq<char>)
    ensures
        trimmed(line).len() == 0 || trimmed(line)[0] == '#' ==> with_line(s, line) == s,
        (forall|i: int| 0 <= i < line.len() ==> line[i] != '=') ==> with_line(s, line) == s,
        key != "charge_limit"@ && key != "power_limit"@ && key != "profile"@ && key
            != "profile_on_ac"@ && key != "profile_on_battery"@ && key != "fan_floor"@ && key
            != "fan_floor_board"@ ==> with_key(s, key, line) == s,
{
    if forall|i: int| 0 <= i < line.len() ==> line[i] != '=' {
        let ends = trimming_drops_the_white_space_around(line);
        let c = trimmed(line);
        assert forall|i: int| 0 <= i < c.len() implies c[i] != '=' by {
            assert(c[i] == line[ends.0 + i]);
        }
        lemma_before(c, '=', c.len());
    }
}

/// A later line on the same key overrides an earlier one, and a limit that is no number, or does
/// not fit, is none.
pub proof fn the_last_line_of_a_key_decides(s: Remembered, a: nat, b: nat)
    ensures
        a <= 255 && b <= 255 ==> with_key(
            with_key(s, "charge_limit"@, decimal(a)),
            "charge_limit"@,
            decimal(b),
        ) == (Remembered { charge_limit: Some(b as u8), ..s }),
        b > 255 ==> with_key(s, "charge_limit"@, decimal(b)) == (Remembered {
            charge_limit: None,
            ..s
        }),
        a <= u32::MAX && b <= u32::MAX ==> with_key(
            with_key(s, "power_limit"@, decimal(a)),
            "power_limit"@,
            decimal(b),
        ) == (Remembered { power_limit: Some(b as u32), ..s }),
        b > u32::MAX ==> with_key(s, "power_limit"@, decimal(b)) == (Remembered {
            power_limit: None,
            ..s
        }),
{
    reveal_strlit("charge_limit");
    reveal_strlit("power_limit");
    assert("charge_limit"@.len() == 12 && "power_limit"@.len() == 11);
    lemma_decimal(b);
    lemma_decimal(a);
    assert(is_digit(decimal(b)[0]) && is_digit(decimal(b).last()));
    assert(is_digit(decimal(a)[0]) && is_digit(decimal(a).last()));
    lemma_trimmed_same(decimal(b));
    lemma_trimmed_same(decimal(a));
    decimal_reads_back(b, u8::MAX as nat);
    decimal_reads_back(b, u32::MAX as nat);
    decimal_reads_back(a, u8::MAX as nat);
    decimal_reads_back(a, u32::MAX as nat);
}

/// Each key remembers what it names: a name without the white space around it, none where it is
/// empty, and the floor as the list that it is.
pub proof fn a_key_remembers_what_it_names(s: Remembered, v: Seq<char>)
    ensures
        ({
            let name = if trimmed(v).len() == 0 {
                None
            } else {
                Some(trimmed(v))
            };
            &&& with_key(s, "profile"@, v) == (Remembered { profile: name, ..s })
            &&& with_key(s, "profile_on_ac"@, v) == (Remembered { profile_on_ac: name, ..s })
            &&& with_key(s, "profile_on_battery"@, v) == (Remembered {
                profile_on_battery: name,
                ..s
            })
            &&& with_key(s, "fan_floor_board"@, v) == (Remembered { floor_board: name, ..s })
            &&& with_key(s, "fan_floor"@, v) == (Remembered { floor: floor_in(v), ..s })
        }),
        loaded(seq![]) == (Remembered {
            charge_limit: None,
            power_limit: None,
            profile: None,
            profile_on_ac: None,
            profile_on_battery: None,
            floor: seq![],
            floor_board: None,
        }),
{
    lemma_keys();
}

}
