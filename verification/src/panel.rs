//! The dashboard's state: per-team attack states, the status bar, the
//! tab strip, the log buffer and the editable settings.  Rendering and
//! key events live with the caller; everything it decides comes from
//! here.

use vstd::prelude::*;
use vstd::string::StringSliceAdditionalSpecFns;

use crate::config::AttackerConfig;
use crate::config::SubmitMode;
use crate::config::SubmitterConfig;
use crate::errors::AttackError;
use crate::sched::TeamOutcome;
use crate::subnet::ipv4_bytes;
use crate::subnet::ipv4_to_bytes;
use crate::text::dec_digits;
use crate::text::u64_to_dec;

verus! {

/// Where a team stands in the current cycle.
#[derive(Debug, Clone)]
pub enum AttackState {
    Idle,
    Attacking,
    /// Flags captured and handed to the dispatcher; the batch they are in.
    Submitting(Vec<Vec<u8>>),
    /// The cycle finished; the points gained, in thousandths.
    Success(u64),
    /// Every exploit failed; the per-exploit errors.
    Errored(Vec<AttackError>),
}

impl AttackState {
    /// The row's display text: the state's name, with how many flags are
    /// in flight, the whole points gained, or how many exploits failed.
    pub fn describe(&self) -> (r: Vec<u8>)
        ensures
            r@ == self.spec_describe(),
    {
        match self {
            AttackState::Idle => vstd::slice::slice_to_vec("Idle".as_bytes()),
            AttackState::Attacking => vstd::slice::slice_to_vec("Attacking".as_bytes()),
            AttackState::Submitting(flags) => {
                let mut m = vstd::slice::slice_to_vec("Submitting ".as_bytes());
                let mut num = u64_to_dec(flags.len() as u64);
                m.append(&mut num);
                let mut tail = vstd::slice::slice_to_vec(" flags".as_bytes());
                m.append(&mut tail);
                proof {
                    assert(m@ =~= self.spec_describe());
                }
                m
            },
            AttackState::Success(points_milli) => {
                let mut m = vstd::slice::slice_to_vec("Success (".as_bytes());
                let mut num = u64_to_dec(*points_milli / 1000);
                m.append(&mut num);
                let mut tail = vstd::slice::slice_to_vec(" points)".as_bytes());
                m.append(&mut tail);
                proof {
                    assert(m@ =~= self.spec_describe());
                }
                m
            },
            AttackState::Errored(errors) => {
                let mut m = vstd::slice::slice_to_vec("Errored (".as_bytes());
                let mut num = u64_to_dec(errors.len() as u64);
                m.append(&mut num);
                let mut tail = vstd::slice::slice_to_vec(")".as_bytes());
                m.append(&mut tail);
                proof {
                    assert(m@ =~= self.spec_describe());
                }
                m
            },
        }
    }

    pub open spec fn spec_describe(self) -> Seq<u8> {
        match self {
            AttackState::Idle => "Idle".spec_bytes(),
            AttackState::Attacking => "Attacking".spec_bytes(),
            AttackState::Submitting(flags) => "Submitting ".spec_bytes() + dec_digits(
                flags@.len(),
            ) + " flags".spec_bytes(),
            AttackState::Success(points_milli) => "Success (".spec_bytes() + dec_digits(
                (points_milli / 1000) as nat,
            ) + " points)".spec_bytes(),
            AttackState::Errored(errors) => "Errored (".spec_bytes() + dec_digits(errors@.len())
                + ")".spec_bytes(),
        }
    }
}

/// One team's display row.
#[derive(Debug, Clone)]
pub struct TeamStatus {
    pub name: Vec<u8>,
    /// The team's address as dotted-quad text.
    pub ip: Vec<u8>,
    pub status: AttackState,
}

impl TeamStatus {
    /// A fresh row for a roster entry, idle until attacked.
    pub fn from_team(name: &[u8], team: &crate::config::Team) -> (r: TeamStatus)
        ensures
            r.name@ == name@,
            r.ip@ == ipv4_bytes(team.ip),
            r.status is Idle,
    {
        TeamStatus {
            name: vstd::slice::slice_to_vec(name),
            ip: ipv4_to_bytes(team.ip),
            status: AttackState::Idle,
        }
    }
}

/// The state a team's row shows once its cycle's results are in and, if
/// flags were captured and a submitter is configured, its submissions
/// are done: only a team whose every exploit failed is "errored"; flags
/// waiting for the cycle's batch show as "submitting"; submitted flags
/// show the points gained; captured flags without a submitter score
/// nothing.
pub fn team_state_after(
    outcome: TeamOutcome,
    has_submitter: bool,
    mode: SubmitMode,
    points_milli: u64,
) -> (r: AttackState)
    ensures
        outcome is Errored ==> (r matches AttackState::Errored(rs) && rs@ == outcome->Errored_0@),
        outcome is Captured && outcome->Captured_0@.len() == 0 ==> r is Idle,
        outcome is Captured && outcome->Captured_0@.len() > 0 && !has_submitter ==> (
        r matches AttackState::Success(p) && p == 0),
        outcome is Captured && outcome->Captured_0@.len() > 0 && has_submitter && mode
            == SubmitMode::Batch ==> (r matches AttackState::Submitting(rs) && rs@
            == outcome->Captured_0@),
        outcome is Captured && outcome->Captured_0@.len() > 0 && has_submitter && mode
            != SubmitMode::Batch ==> (r matches AttackState::Success(p) && p == points_milli),
{
    match outcome {
        TeamOutcome::Errored(es) => AttackState::Errored(es),
        TeamOutcome::Captured(fs) => {
            if fs.len() == 0 {
                AttackState::Idle
            } else if !has_submitter {
                AttackState::Success(0)
            } else {
                match mode {
                    SubmitMode::Batch => AttackState::Submitting(fs),
                    SubmitMode::Grouped => AttackState::Success(points_milli),
                    SubmitMode::Instant => AttackState::Success(points_milli),
                }
            }
        },
    }
}

/// The status bar's tone.
#[derive(Debug, Clone, Copy, PartialEq, Eq, Structural)]
pub enum StatusType {
    Idle,
    Attacking,
    Submitting,
    Success,
}

/// How many teams are idle, attacking, submitting and finished; an
/// errored team counts as idle.
pub open spec fn team_stats(teams: Seq<TeamStatus>) -> (int, int, int, int)
    decreases teams.len(),
{
    if teams.len() == 0 {
        (0int, 0int, 0int, 0int)
    } else {
        let (i, a, s, c) = team_stats(teams.drop_last());
        match teams.last().status {
            AttackState::Idle => (i + 1, a, s, c),
            AttackState::Attacking => (i, a + 1, s, c),
            AttackState::Submitting(_) => (i, a, s + 1, c),
            AttackState::Success(_) => (i, a, s, c + 1),
            AttackState::Errored(_) => (i + 1, a, s, c),
        }
    }
}

/// The message the status bar shows for these counts.
pub open spec fn bar_message(i: int, a: int, s: int, c: int, total: int) -> Seq<u8> {
    if a > 0 {
        "Attacking ".spec_bytes() + dec_digits(a as nat) + " teams".spec_bytes()
    } else if s > 0 {
        "Submitting flags from ".spec_bytes() + dec_digits(s as nat) + " teams".spec_bytes()
    } else if c > 0 && c == total {
        "All attacks completed successfully".spec_bytes()
    } else if i == total {
        "Idle - Ready to attack".spec_bytes()
    } else {
        "Mixed state: ".spec_bytes() + dec_digits(i as nat) + " idle, ".spec_bytes() + dec_digits(
            a as nat,
        ) + " attacking, ".spec_bytes() + dec_digits(s as nat) + " submitting, ".spec_bytes()
            + dec_digits(c as nat) + " completed".spec_bytes()
    }
}

/// The tone the status bar takes for these counts.
pub open spec fn bar_tone(i: int, a: int, s: int, c: int, total: int) -> StatusType {
    if a > 0 {
        StatusType::Attacking
    } else if s > 0 {
        StatusType::Submitting
    } else if c > 0 && c == total {
        StatusType::Success
    } else {
        StatusType::Idle
    }
}

/// The status bar: one message and its tone.
#[derive(Debug, Clone)]
pub struct StatusBar {
    pub message: Vec<u8>,
    pub status_type: StatusType,
}

impl StatusBar {
    /// A fresh, idle status bar.
    pub fn new() -> (r: StatusBar)
        ensures
            r.message@ == "Idle - Ready to attack".spec_bytes(),
            r.status_type == StatusType::Idle,
    {
        StatusBar {
            message: vstd::slice::slice_to_vec("Idle - Ready to attack".as_bytes()),
            status_type: StatusType::Idle,
        }
    }

    /// Replaces the message and tone.
    pub fn update(&mut self, message: &[u8], status_type: StatusType)
        ensures
            final(self).message@ == message@,
            final(self).status_type == status_type,
    {
        self.message = vstd::slice::slice_to_vec(message);
        self.status_type = status_type;
    }

    /// How many teams are in each state; an errored team counts as idle.
    pub fn get_team_stats(&self, teams: &[TeamStatus]) -> (r: (usize, usize, usize, usize))
        ensures
            (r.0 as int, r.1 as int, r.2 as int, r.3 as int) == team_stats(teams@),
    {
        let ghost ts = teams@;
        let mut i: usize = 0;
        let mut a: usize = 0;
        let mut s: usize = 0;
        let mut c: usize = 0;
        let mut k: usize = 0;
        proof {
            assert(ts.take(0) =~= Seq::<TeamStatus>::empty());
        }
        while k < teams.len()
            invariant
                k <= ts.len(),
                ts == teams@,
                i + a + s + c <= k,
                (i as int, a as int, s as int, c as int) == team_stats(ts.take(k as int)),
            decreases ts.len() - k,
        {
            proof {
                assert(ts.take(k + 1).drop_last() =~= ts.take(k as int));
                assert(ts.take(k + 1).last() == ts[k as int]);
            }
            match &teams[k].status {
                AttackState::Idle => i += 1,
                AttackState::Attacking => a += 1,
                AttackState::Submitting(_) => s += 1,
                AttackState::Success(_) => c += 1,
                AttackState::Errored(_) => i += 1,
            }
            k += 1;
        }
        proof {
            assert(ts.take(ts.len() as int) =~= ts);
        }
        (i, a, s, c)
    }

    /// Summarises the team states into the bar: attacking first, then
    /// submitting, then all-done, then all-idle, else a mixed-state
    /// report.
    pub fn update_from_teams(&mut self, teams: &Vec<TeamStatus>)
        ensures
            ({
                let (i, a, s, c) = team_stats(teams@);
                &&& final(self).message@ == bar_message(i, a, s, c, teams@.len() as int)
                &&& final(self).status_type == bar_tone(i, a, s, c, teams@.len() as int)
            }),
    {
        let stats = self.get_team_stats(teams.as_slice());
        let (i, a, s, c) = stats;
        let total = teams.len();
        if a > 0 {
            let mut m = vstd::slice::slice_to_vec("Attacking ".as_bytes());
            let mut num = u64_to_dec(a as u64);
            m.append(&mut num);
            let mut tail = vstd::slice::slice_to_vec(" teams".as_bytes());
            m.append(&mut tail);
            proof {
                assert(m@ =~= bar_message(i as int, a as int, s as int, c as int, total as int));
            }
            self.message = m;
            self.status_type = StatusType::Attacking;
        } else if s > 0 {
            let mut m = vstd::slice::slice_to_vec("Submitting flags from ".as_bytes());
            let mut num = u64_to_dec(s as u64);
            m.append(&mut num);
            let mut tail = vstd::slice::slice_to_vec(" teams".as_bytes());
            m.append(&mut tail);
            proof {
                assert(m@ =~= bar_message(i as int, a as int, s as int, c as int, total as int));
            }
            self.message = m;
            self.status_type = StatusType::Submitting;
        } else if c > 0 && c == total {
            self.message = vstd::slice::slice_to_vec(
                "All attacks completed successfully".as_bytes(),
            );
            self.status_type = StatusType::Success;
        } else if i == total {
            self.message = vstd::slice::slice_to_vec("Idle - Ready to attack".as_bytes());
            self.status_type = StatusType::Idle;
        } else {
            let mut m = vstd::slice::slice_to_vec("Mixed state: ".as_bytes());
            let mut num = u64_to_dec(i as u64);
            m.append(&mut num);
            let mut part = vstd::slice::slice_to_vec(" idle, ".as_bytes());
            m.append(&mut part);
            let mut num = u64_to_dec(a as u64);
            m.append(&mut num);
            let mut part = vstd::slice::slice_to_vec(" attacking, ".as_bytes());
            m.append(&mut part);
            let mut num = u64_to_dec(s as u64);
            m.append(&mut num);
            let mut part = vstd::slice::slice_to_vec(" submitting, ".as_bytes());
            m.append(&mut part);
            let mut num = u64_to_dec(c as u64);
            m.append(&mut num);
            let mut part = vstd::slice::slice_to_vec(" completed".as_bytes());
            m.append(&mut part);
            proof {
                assert(m@ =~= bar_message(i as int, a as int, s as int, c as int, total as int));
            }
            self.message = m;
            self.status_type = StatusType::Idle;
        }
    }
}

/// The dashboard's tabs.
#[derive(Debug, Clone, Copy, PartialEq, Eq, Structural)]
pub enum TabState {
    Teams,
    Logs,
    Exploits,
}

impl TabState {
    /// The tab's position in the strip.
    pub fn index(&self) -> (r: usize)
        ensures
            r == self.spec_index(),
    {
        match self {
            TabState::Teams => 0,
            TabState::Logs => 1,
            TabState::Exploits => 2,
        }
    }

    pub open spec fn spec_index(self) -> usize {
        match self {
            TabState::Teams => 0usize,
            TabState::Logs => 1usize,
            TabState::Exploits => 2usize,
        }
    }

    /// The tab at a position; out-of-range positions fall back to the
    /// team tab.
    pub fn from_index(index: usize) -> (r: TabState)
        ensures
            r == TabState::spec_from_index(index),
    {
        match index {
            0 => TabState::Teams,
            1 => TabState::Logs,
            2 => TabState::Exploits,
            _ => TabState::Teams,
        }
    }

    pub open spec fn spec_from_index(index: usize) -> TabState {
        if index == 0 {
            TabState::Teams
        } else if index == 1 {
            TabState::Logs
        } else if index == 2 {
            TabState::Exploits
        } else {
            TabState::Teams
        }
    }
}

/// A tab's position always leads back to the tab: the strip's order and
/// the key bindings agree.
pub proof fn lemma_tab_round_trip(t: TabState)
    ensures
        TabState::spec_from_index(t.spec_index()) == t,
{
}

/// One log line added at the front; the buffer is capped at a thousand
/// lines by dropping the oldest.
pub open spec fn push_log(msgs: Seq<Seq<u8>>, m: Seq<u8>) -> Seq<Seq<u8>> {
    let grown = seq![m] + msgs;
    if grown.len() > 1000 {
        grown.drop_last()
    } else {
        grown
    }
}

/// The buffer after a batch of new lines, oldest first.
pub open spec fn process_logs(msgs: Seq<Seq<u8>>, new: Seq<Seq<u8>>) -> Seq<Seq<u8>>
    decreases new.len(),
{
    if new.len() == 0 {
        msgs
    } else {
        push_log(process_logs(msgs, new.drop_last()), new.last())
    }
}

/// The log buffer: newest line first, with a scroll position.
#[derive(Debug, Clone)]
pub struct LogManager {
    /// The buffered lines, newest first.
    pub messages: Vec<Vec<u8>>,
    pub scroll_position: usize,
}

impl LogManager {
    /// An empty log buffer.
    pub fn new() -> (r: LogManager)
        ensures
            r.messages@.len() == 0,
            r.scroll_position == 0,
    {
        LogManager { messages: Vec::new(), scroll_position: 0 }
    }

    /// Takes a batch of freshly received lines, oldest first, into the
    /// buffer: each goes to the front, and the buffer keeps at most a
    /// thousand lines.
    pub fn process_new_logs(&mut self, new_messages: Vec<Vec<u8>>)
        ensures
            final(self).messages.deep_view() == process_logs(
                old(self).messages.deep_view(),
                new_messages.deep_view(),
            ),
            final(self).scroll_position == old(self).scroll_position,
    {
        let ghost orig = self.messages.deep_view();
        let ghost new = new_messages.deep_view();
        let total = new_messages.len();
        let mut k: usize = 0;
        proof {
            assert(new.take(0) =~= Seq::<Seq<u8>>::empty());
        }
        while k < total
            invariant
                k <= total,
                total == new_messages@.len(),
                new == new_messages.deep_view(),
                new.len() == total,
                self.messages.deep_view() =~= process_logs(orig, new.take(k as int)),
                self.scroll_position == old(self).scroll_position,
            decreases total - k,
        {
            let ghost pre = self.messages.deep_view();
            proof {
                assert(new.take(k + 1).drop_last() =~= new.take(k as int));
                assert(new.take(k + 1).last() == new[k as int]);
                assert(new[k as int] == new_messages@[k as int]@);
            }
            let m = vstd::slice::slice_to_vec(new_messages[k].as_slice());
            self.messages.insert(0, m);
            proof {
                assert(self.messages.deep_view() =~~= seq![new[k as int]] + pre);
            }
            if self.messages.len() > 1000 {
                let ghost grown = self.messages.deep_view();
                let _ = self.messages.pop();
                proof {
                    assert(self.messages.deep_view() =~~= grown.drop_last());
                }
            }
            k += 1;
        }
        proof {
            assert(new.take(total as int) =~= new);
        }
    }

    /// The most recent line, if any.
    pub fn latest_message(&self) -> (r: Option<&Vec<u8>>)
        ensures
            self.messages@.len() == 0 ==> r is None,
            self.messages@.len() > 0 ==> (r matches Some(m) && m@ == self.messages@[0]@),
    {
        if self.messages.len() > 0 {
            Some(&self.messages[0])
        } else {
            None
        }
    }

    /// Scrolls towards the newest lines.
    pub fn scroll_up(&mut self, amount: usize)
        ensures
            final(self).messages@ == old(self).messages@,
            old(self).scroll_position == 0 ==> final(self).scroll_position == 0,
            old(self).scroll_position > 0 ==> final(self).scroll_position == (
            if old(self).scroll_position >= amount {
                old(self).scroll_position - amount
            } else {
                0
            }),
    {
        if self.scroll_position > 0 {
            self.scroll_position = self.scroll_position.saturating_sub(amount);
        }
    }

    /// Scrolls towards the oldest lines, never past the last one.
    pub fn scroll_down(&mut self, amount: usize)
        ensures
            final(self).messages@ == old(self).messages@,
            ({
                let len = old(self).messages@.len() as int;
                let pos = old(self).scroll_position as int;
                if len > 0 && pos < len - 1 {
                    final(self).scroll_position == (if pos + amount <= len - 1 {
                        pos + amount
                    } else {
                        len - 1
                    })
                } else {
                    final(self).scroll_position == pos
                }
            }),
    {
        let len = self.messages.len();
        if len > 0 && self.scroll_position < len - 1 {
            let next = self.scroll_position.saturating_add(amount);
            self.scroll_position = if next <= len - 1 {
                next
            } else {
                len - 1
            };
        }
    }

    /// Empties the buffer and resets the scroll position.
    pub fn clear(&mut self)
        ensures
            final(self).messages@.len() == 0,
            final(self).scroll_position == 0,
    {
        self.messages.clear();
        self.scroll_position = 0;
    }
}

/// The settings the dashboard can edit.
#[derive(Debug, Clone, Copy, PartialEq, Eq, Structural)]
pub enum SettingType {
    ExploitPath,
    FlagRegex,
    SubmitEnabled,
    SubmitterType,
    SubmitMode,
}

/// The words that enable submission in the settings editor.
pub open spec fn is_enable_word(v: Seq<u8>) -> bool {
    ||| v == "enabled".spec_bytes()
    ||| v == "true".spec_bytes()
    ||| v == "yes".spec_bytes()
    ||| v == "y".spec_bytes()
    ||| v == "1".spec_bytes()
}

/// The words that disable submission in the settings editor.
pub open spec fn is_disable_word(v: Seq<u8>) -> bool {
    ||| v == "disabled".spec_bytes()
    ||| v == "false".spec_bytes()
    ||| v == "no".spec_bytes()
    ||| v == "n".spec_bytes()
    ||| v == "0".spec_bytes()
}

/// The settings tab's state: the editable settings, the selection, and
/// the value being typed.
#[derive(Debug, Clone)]
pub struct SettingsState {
    /// The settings, in display order.
    pub items: Vec<SettingType>,
    /// The selected row.
    pub selected: Option<usize>,
    /// Whether a value is being typed.
    pub editing: bool,
    /// The value being typed.
    pub edit_value: Vec<u8>,
}

impl Default for SettingsState {
    /// All five settings, the first selected, nothing being edited.
    fn default() -> (r: SettingsState)
        ensures
            r.items@ == seq![
                SettingType::ExploitPath,
                SettingType::FlagRegex,
                SettingType::SubmitEnabled,
                SettingType::SubmitterType,
                SettingType::SubmitMode,
            ],
            r.selected == Some(0usize),
            !r.editing,
            r.edit_value@.len() == 0,
    {
        let mut items: Vec<SettingType> = Vec::new();
        items.push(SettingType::ExploitPath);
        items.push(SettingType::FlagRegex);
        items.push(SettingType::SubmitEnabled);
        items.push(SettingType::SubmitterType);
        items.push(SettingType::SubmitMode);
        proof {
            assert(items@ =~= seq![
                SettingType::ExploitPath,
                SettingType::FlagRegex,
                SettingType::SubmitEnabled,
                SettingType::SubmitterType,
                SettingType::SubmitMode,
            ]);
        }
        SettingsState { items, selected: Some(0), editing: false, edit_value: Vec::new() }
    }
}

impl SettingsState {
    /// Moves the selection one row up, wrapping; typing blocks movement.
    pub fn previous(&mut self)
        requires
            old(self).items@.len() > 0,
        ensures
            final(self).items@ == old(self).items@,
            final(self).editing == old(self).editing,
            final(self).edit_value@ == old(self).edit_value@,
            old(self).editing ==> final(self).selected == old(self).selected,
            !old(self).editing ==> final(self).selected == Some(
                match old(self).selected {
                    Some(i) => if i == 0 {
                        (old(self).items@.len() - 1) as usize
                    } else {
                        (i - 1) as usize
                    },
                    None => 0usize,
                },
            ),
    {
        if !self.editing {
            let i: usize = match self.selected {
                Some(i) => if i == 0 {
                    self.items.len() - 1
                } else {
                    i - 1
                },
                None => 0,
            };
            self.selected = Some(i);
        }
    }

    /// Moves the selection one row down, wrapping; typing blocks
    /// movement.
    pub fn next(&mut self)
        requires
            old(self).items@.len() > 0,
        ensures
            final(self).items@ == old(self).items@,
            final(self).editing == old(self).editing,
            final(self).edit_value@ == old(self).edit_value@,
            old(self).editing ==> final(self).selected == old(self).selected,
            !old(self).editing ==> final(self).selected == Some(
                match old(self).selected {
                    Some(i) => if i + 1 >= old(self).items@.len() {
                        0usize
                    } else {
                        (i + 1) as usize
                    },
                    None => 0usize,
                },
            ),
    {
        if !self.editing {
            let i: usize = match self.selected {
                Some(i) => if i >= self.items.len() - 1 {
                    0
                } else {
                    i + 1
                },
                None => 0,
            };
            self.selected = Some(i);
        }
    }

    /// The value the selected setting shows when editing starts.
    pub open spec fn initial_edit_value(
        item: SettingType,
        attacker: AttackerConfig,
        submitter: Option<SubmitterConfig>,
    ) -> Seq<u8> {
        match item {
            SettingType::ExploitPath => attacker.exploit@,
            SettingType::FlagRegex => attacker.flag@,
            SettingType::SubmitEnabled => if submitter is Some {
                "enabled".spec_bytes()
            } else {
                "disabled".spec_bytes()
            },
            SettingType::SubmitterType => match submitter {
                Some(c) => match c.kind {
                    crate::config::SubmitterType::Tcp => "tcp".spec_bytes(),
                    crate::config::SubmitterType::Http => "http".spec_bytes(),
                },
                None => "tcp".spec_bytes(),
            },
            SettingType::SubmitMode => match submitter {
                Some(c) => match c.mode {
                    SubmitMode::Batch => "batch".spec_bytes(),
                    SubmitMode::Grouped => "grouped".spec_bytes(),
                    SubmitMode::Instant => "instant".spec_bytes(),
                },
                None => "batch".spec_bytes(),
            },
        }
    }

    /// Starts editing the selected setting, seeding the field with its
    /// current value.
    pub fn start_edit(
        &mut self,
        attacker: &AttackerConfig,
        submitter: &Option<SubmitterConfig>,
    )
        requires
            match old(self).selected {
                Some(i) => i < old(self).items@.len(),
                None => true,
            },
        ensures
            final(self).items@ == old(self).items@,
            final(self).selected == old(self).selected,
            old(self).selected is None ==> *final(self) == *old(self),
            old(self).selected matches Some(i) ==> final(self).editing
                && final(self).edit_value@ == Self::initial_edit_value(
                old(self).items@[i as int],
                *attacker,
                *submitter,
            ),
    {
        match self.selected {
            None => {},
            Some(idx) => {
                self.editing = true;
                let item = self.items[idx];
                self.edit_value = match item {
                    SettingType::ExploitPath => vstd::slice::slice_to_vec(
                        attacker.exploit.as_slice(),
                    ),
                    SettingType::FlagRegex => vstd::slice::slice_to_vec(
                        attacker.flag.as_slice(),
                    ),
                    SettingType::SubmitEnabled => match submitter {
                        Some(_) => vstd::slice::slice_to_vec("enabled".as_bytes()),
                        None => vstd::slice::slice_to_vec("disabled".as_bytes()),
                    },
                    SettingType::SubmitterType => match submitter {
                        Some(c) => match c.kind {
                            crate::config::SubmitterType::Tcp => vstd::slice::slice_to_vec(
                                "tcp".as_bytes(),
                            ),
                            crate::config::SubmitterType::Http => vstd::slice::slice_to_vec(
                                "http".as_bytes(),
                            ),
                        },
                        None => vstd::slice::slice_to_vec("tcp".as_bytes()),
                    },
                    SettingType::SubmitMode => match submitter {
                        Some(c) => match c.mode {
                            SubmitMode::Batch => vstd::slice::slice_to_vec("batch".as_bytes()),
                            SubmitMode::Grouped => vstd::slice::slice_to_vec(
                                "grouped".as_bytes(),
                            ),
                            SubmitMode::Instant => vstd::slice::slice_to_vec(
                                "instant".as_bytes(),
                            ),
                        },
                        None => vstd::slice::slice_to_vec("batch".as_bytes()),
                    },
                };
            },
        }
    }

    /// Abandons the edit.
    pub fn cancel_edit(&mut self)
        ensures
            final(self).items@ == old(self).items@,
            final(self).selected == old(self).selected,
            !final(self).editing,
            final(self).edit_value@.len() == 0,
    {
        self.editing = false;
        self.edit_value = Vec::new();
    }

    /// One keystroke into the value being typed: newline is ignored,
    /// backspace and delete erase, anything else is appended.
    pub fn handle_edit_input(&mut self, c: u8)
        ensures
            final(self).items@ == old(self).items@,
            final(self).selected == old(self).selected,
            final(self).editing == old(self).editing,
            c == 10 ==> final(self).edit_value@ == old(self).edit_value@,
            (c == 8 || c == 127) ==> final(self).edit_value@ == (
            if old(self).edit_value@.len() > 0 {
                old(self).edit_value@.drop_last()
            } else {
                old(self).edit_value@
            }),
            (c != 10 && c != 8 && c != 127) ==> final(self).edit_value@ == old(
                self,
            ).edit_value@.push(c),
    {
        if c == 10 {
        } else if c == 8 || c == 127 {
            let _ = self.edit_value.pop();
        } else {
            self.edit_value.push(c);
        }
    }

    /// Applies the typed value to the configuration, reporting bad
    /// values instead of applying them:
    /// - the exploit path must exist (the caller checks and passes the
    ///   verdict in);
    /// - the flag pattern must compile;
    /// - enabling submission conjures the default submitter
    ///   configuration, disabling removes it;
    /// - the submission type and mode must name one of the known
    ///   variants and need submission enabled.
    ///
    /// Editing always ends, applied or not.
    pub fn apply_edit(
        &mut self,
        attacker: &mut AttackerConfig,
        submitter: &mut Option<SubmitterConfig>,
        errors: &mut Vec<AttackError>,
        path_exists: bool,
    )
        requires
            match old(self).selected {
                Some(i) => i < old(self).items@.len(),
                None => true,
            },
        ensures
            final(self).items@ == old(self).items@,
            final(self).selected == old(self).selected,
            !final(self).editing,
            final(self).edit_value@.len() == 0,
            old(self).selected is None ==> *final(attacker) == *old(attacker)
                && *final(submitter) == *old(submitter) && final(errors)@ == old(errors)@,
            old(self).selected matches Some(sel) ==> apply_edit_effect(
                old(self).items@[sel as int],
                old(self).edit_value@,
                *old(attacker),
                *final(attacker),
                *old(submitter),
                *final(submitter),
                old(errors)@,
                final(errors)@,
                path_exists,
            ),
    {
        let ghost errors0 = errors@;
        match self.selected {
            None => {},
            Some(idx) => {
                let item = self.items[idx];
                let lowered = crate::text::to_lower_bytes(self.edit_value.as_slice());
                match item {
                    SettingType::ExploitPath => {
                        if path_exists {
                            attacker.exploit = vstd::slice::slice_to_vec(
                                self.edit_value.as_slice(),
                            );
                        } else {
                            let msg = crate::text::concat_bytes(
                                "Path does not exist: ".as_bytes(),
                                self.edit_value.as_slice(),
                            );
                            errors.push(AttackError::Other(msg));
                        }
                    },
                    SettingType::FlagRegex => {
                        if crate::re::pattern_is_valid(self.edit_value.as_slice()) {
                            attacker.flag = vstd::slice::slice_to_vec(
                                self.edit_value.as_slice(),
                            );
                        } else {
                            let msg = crate::text::concat_bytes(
                                "Invalid regex: ".as_bytes(),
                                self.edit_value.as_slice(),
                            );
                            errors.push(AttackError::Other(msg));
                        }
                    },
                    SettingType::SubmitEnabled => {
                        if word_in(&lowered, "enabled", "true", "yes", "y", "1") {
                            if submitter.is_none() {
                                *submitter = Some(SubmitterConfig::default());
                            }
                        } else if word_in(&lowered, "disabled", "false", "no", "n", "0") {
                            *submitter = None;
                        } else {
                            let msg = vstd::slice::slice_to_vec(
                                "Invalid value for submit enabled. Use 'enabled' or 'disabled'".as_bytes(),
                            );
                            errors.push(AttackError::Other(msg));
                        }
                    },
                    SettingType::SubmitterType => {
                        match &mut *submitter {
                            Some(c) => {
                                if crate::text::bytes_eq(lowered.as_slice(), "tcp".as_bytes()) {
                                    c.kind = crate::config::SubmitterType::Tcp;
                                } else if crate::text::bytes_eq(
                                    lowered.as_slice(),
                                    "http".as_bytes(),
                                ) {
                                    c.kind = crate::config::SubmitterType::Http;
                                } else {
                                    let msg = vstd::slice::slice_to_vec(
                                        "Invalid submitter type. Use 'tcp' or 'http'".as_bytes(),
                                    );
                                    errors.push(AttackError::Other(msg));
                                }
                            },
                            None => {
                                let msg = vstd::slice::slice_to_vec(
                                    "Cannot set submitter type when submission is disabled".as_bytes(),
                                );
                                errors.push(AttackError::Other(msg));
                            },
                        }
                    },
                    SettingType::SubmitMode => {
                        match &mut *submitter {
                            Some(c) => {
                                if crate::text::bytes_eq(lowered.as_slice(), "batch".as_bytes()) {
                                    c.mode = SubmitMode::Batch;
                                } else if crate::text::bytes_eq(
                                    lowered.as_slice(),
                                    "grouped".as_bytes(),
                                ) {
                                    c.mode = SubmitMode::Grouped;
                                } else if crate::text::bytes_eq(
                                    lowered.as_slice(),
                                    "instant".as_bytes(),
                                ) {
                                    c.mode = SubmitMode::Instant;
                                } else {
                                    let msg = vstd::slice::slice_to_vec(
                                        "Invalid submit mode. Use 'batch', 'grouped', or 'instant'".as_bytes(),
                                    );
                                    errors.push(AttackError::Other(msg));
                                }
                            },
                            None => {
                                let msg = vstd::slice::slice_to_vec(
                                    "Cannot set submit mode when submission is disabled".as_bytes(),
                                );
                                errors.push(AttackError::Other(msg));
                            },
                        }
                    },
                }
            },
        }
        proof {
            if errors@.len() == errors0.len() + 1 {
                assert(errors@.take(errors0.len() as int) =~= errors0);
            }
        }
        self.editing = false;
        self.edit_value = Vec::new();
    }
}

/// Whether `v` is one of five words.
fn word_in(v: &Vec<u8>, a: &str, b: &str, c: &str, d: &str, e: &str) -> (r: bool)
    ensures
        r == (v@ == a.spec_bytes() || v@ == b.spec_bytes() || v@ == c.spec_bytes() || v@
            == d.spec_bytes() || v@ == e.spec_bytes()),
{
    crate::text::bytes_eq(v.as_slice(), a.as_bytes()) || crate::text::bytes_eq(
        v.as_slice(),
        b.as_bytes(),
    ) || crate::text::bytes_eq(v.as_slice(), c.as_bytes()) || crate::text::bytes_eq(
        v.as_slice(),
        d.as_bytes(),
    ) || crate::text::bytes_eq(v.as_slice(), e.as_bytes())
}

/// One applied (or refused) edit, as a relation between the state before
/// and after: what changed, and exactly which error text is reported
/// when the value is bad.
pub open spec fn apply_edit_effect(
    item: SettingType,
    value: Seq<u8>,
    attacker0: AttackerConfig,
    attacker1: AttackerConfig,
    submitter0: Option<SubmitterConfig>,
    submitter1: Option<SubmitterConfig>,
    errors0: Seq<AttackError>,
    errors1: Seq<AttackError>,
    path_exists: bool,
) -> bool {
    let lowered = crate::text::lower_seq(value);
    match item {
        SettingType::ExploitPath => {
            &&& submitter1 == submitter0
            &&& (path_exists ==> attacker1.exploit@ == value && same_attacker_but_exploit(
                attacker0,
                attacker1,
            ) && errors1 == errors0)
            &&& (!path_exists ==> attacker1 == attacker0 && pushed_other(
                errors0,
                errors1,
                "Path does not exist: ".spec_bytes() + value,
            ))
        },
        SettingType::FlagRegex => {
            &&& submitter1 == submitter0
            &&& (crate::re::pattern_valid(value) ==> attacker1.flag@ == value
                && same_attacker_but_flag(attacker0, attacker1) && errors1 == errors0)
            &&& (!crate::re::pattern_valid(value) ==> attacker1 == attacker0 && pushed_other(
                errors0,
                errors1,
                "Invalid regex: ".spec_bytes() + value,
            ))
        },
        SettingType::SubmitEnabled => {
            &&& attacker1 == attacker0
            &&& (is_enable_word(lowered) ==> errors1 == errors0 && (match submitter0 {
                Some(_) => submitter1 == submitter0,
                None => submitter1 matches Some(c) && crate::config::is_default_submitter_config(
                    c,
                ),
            }))
            &&& ((!is_enable_word(lowered) && is_disable_word(lowered)) ==> errors1 == errors0
                && submitter1 is None)
            &&& ((!is_enable_word(lowered) && !is_disable_word(lowered)) ==> submitter1
                == submitter0 && pushed_other(
                errors0,
                errors1,
                "Invalid value for submit enabled. Use 'enabled' or 'disabled'".spec_bytes(),
            ))
        },
        SettingType::SubmitterType => {
            &&& attacker1 == attacker0
            &&& (submitter0 is None ==> submitter1 == submitter0 && pushed_other(
                errors0,
                errors1,
                "Cannot set submitter type when submission is disabled".spec_bytes(),
            ))
            &&& (submitter0 matches Some(c0) ==> {
                if lowered == "tcp".spec_bytes() {
                    errors1 == errors0 && (submitter1 matches Some(c1) && c1.kind
                        == crate::config::SubmitterType::Tcp && same_submitter_but_kind(c0, c1))
                } else if lowered == "http".spec_bytes() {
                    errors1 == errors0 && (submitter1 matches Some(c1) && c1.kind
                        == crate::config::SubmitterType::Http && same_submitter_but_kind(c0, c1))
                } else {
                    submitter1 == submitter0 && pushed_other(
                        errors0,
                        errors1,
                        "Invalid submitter type. Use 'tcp' or 'http'".spec_bytes(),
                    )
                }
            })
        },
        SettingType::SubmitMode => {
            &&& attacker1 == attacker0
            &&& (submitter0 is None ==> submitter1 == submitter0 && pushed_other(
                errors0,
                errors1,
                "Cannot set submit mode when submission is disabled".spec_bytes(),
            ))
            &&& (submitter0 matches Some(c0) ==> {
                if lowered == "batch".spec_bytes() {
                    errors1 == errors0 && (submitter1 matches Some(c1) && c1.mode
                        == SubmitMode::Batch && same_submitter_but_mode(c0, c1))
                } else if lowered == "grouped".spec_bytes() {
                    errors1 == errors0 && (submitter1 matches Some(c1) && c1.mode
                        == SubmitMode::Grouped && same_submitter_but_mode(c0, c1))
                } else if lowered == "instant".spec_bytes() {
                    errors1 == errors0 && (submitter1 matches Some(c1) && c1.mode
                        == SubmitMode::Instant && same_submitter_but_mode(c0, c1))
                } else {
                    submitter1 == submitter0 && pushed_other(
                        errors0,
                        errors1,
                        "Invalid submit mode. Use 'batch', 'grouped', or 'instant'".spec_bytes(),
                    )
                }
            })
        },
    }
}

/// The attacker configurations agree on everything but the exploit path.
pub open spec fn same_attacker_but_exploit(a0: AttackerConfig, a1: AttackerConfig) -> bool {
    a1.flag == a0.flag && a1.teams == a0.teams && a1.loop_cfg == a0.loop_cfg && a1.exploits
        == a0.exploits
}

/// The attacker configurations agree on everything but the flag pattern.
pub open spec fn same_attacker_but_flag(a0: AttackerConfig, a1: AttackerConfig) -> bool {
    a1.exploit == a0.exploit && a1.teams == a0.teams && a1.loop_cfg == a0.loop_cfg && a1.exploits
        == a0.exploits
}

/// The submitter configurations agree on everything but the protocol.
pub open spec fn same_submitter_but_kind(c0: SubmitterConfig, c1: SubmitterConfig) -> bool {
    c1.database == c0.database && c1.config == c0.config && c1.mode == c0.mode
}

/// The submitter configurations agree on everything but the mode.
pub open spec fn same_submitter_but_mode(c0: SubmitterConfig, c1: SubmitterConfig) -> bool {
    c1.database == c0.database && c1.config == c0.config && c1.kind == c0.kind
}

/// One error appended, with this text.
pub open spec fn pushed_other(
    errors0: Seq<AttackError>,
    errors1: Seq<AttackError>,
    msg: Seq<u8>,
) -> bool {
    errors1.len() == errors0.len() + 1 && errors1.take(errors0.len() as int) == errors0 && (
    errors1.last() matches AttackError::Other(m) && m@ == msg)
}

} // verus!
