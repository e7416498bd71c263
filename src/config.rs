//! The registry of apps and the ledger of sessions each app keeps.
use crate::error::Error;
use crate::span::{
    balanced_to_hours, checked_span_sum, format_span, lemma_balanced_length, span_checked_add,
    span_text, displayable, Span, NANOS_PER_SECOND,
};
use crate::zoned::{
    format_zoned, in_instant_range, instant_until, week_before, zoned_text, ZonedTime,
    MIN_INSTANT, OFFSET_SPREAD_NANOS, WEEK_NANOS,
};
use vstd::prelude::*;

verus! {

/// Everything the tracker stores: the registered apps, in the order added.
pub struct Config {
    pub apps: Vec<App>,
}

/// A registered app, with the sessions recorded for it in chronological order.
pub struct App {
    pub name: String,
    pub exe: String,
    pub sessions: Vec<Session>,
}

/// One play of an app: when it began and how long it ran.
pub struct Session {
    pub timestamp: ZonedTime,
    pub duration: Span,
}

/// One line of the `list` report.
pub struct AppSummary {
    pub name: String,
    pub exe: String,
    pub total: Span,
    pub recent: Span,
}

/// One line of the `sessions` report.
pub struct SessionLine {
    pub played_on: String,
    pub duration: String,
}

/// What became of a finished run of an app.
pub enum RunOutcome {
    /// The run was shorter than a second and was not recorded.
    TooShort(Span),
    /// The run was appended to the app's sessions.
    Recorded(Span),
}

/// Some app in `apps` is called `name`.
pub open spec fn has_app(apps: Seq<App>, name: Seq<char>) -> bool {
    exists|i: int| 0 <= i < apps.len() && apps[i].name@ == name
}

/// `i` is the first position in `apps` of an app called `name`.
pub open spec fn is_first(apps: Seq<App>, name: Seq<char>, i: int) -> bool {
    &&& 0 <= i < apps.len()
    &&& apps[i].name@ == name
    &&& forall|j: int| 0 <= j < i ==> apps[j].name@ != name
}

/// `a` is what a lookup of `name` in `apps` finds.
pub open spec fn found(apps: Seq<App>, name: Seq<char>, a: App) -> bool {
    exists|i: int| is_first(apps, name, i) && a == apps[i]
}

/// No two apps share a name.
pub open spec fn names_unique(apps: Seq<App>) -> bool {
    forall|i: int, j: int|
        0 <= i < apps.len() && 0 <= j < apps.len() && i != j ==> apps[i].name@ != apps[j].name@
}

/// `after` is `before` with an app `name` running `exe` and no sessions appended.
pub open spec fn added(before: Seq<App>, after: Seq<App>, name: Seq<char>, exe: Seq<char>) -> bool {
    &&& after.len() == before.len() + 1
    &&& after.take(before.len() as int) == before
    &&& after.last().name@ == name
    &&& after.last().exe@ == exe
    &&& after.last().sessions@.len() == 0
}

/// `after` is `before` without the first app called `name`.
pub open spec fn removed(before: Seq<App>, after: Seq<App>, name: Seq<char>) -> bool {
    exists|i: int| is_first(before, name, i) && after == before.remove(i)
}

/// The session is counted: it began strictly after `since`, where one is given.
pub open spec fn counted(s: Session, since: Option<int>) -> bool {
    match since {
        Some(c) => s.timestamp.instant > c,
        None => true,
    }
}

/// The checked sum, taken in order from the zero span, of the durations of
/// the counted sessions; `None` once an addition fails.
pub open spec fn ledger_sum(s: Seq<Session>, since: Option<int>) -> Option<Span>
    decreases s.len(),
{
    if s.len() == 0 {
        Some(Span::zero_spec())
    } else {
        match ledger_sum(s.drop_last(), since) {
            Some(acc) => if counted(s.last(), since) {
                checked_span_sum(acc, s.last().duration)
            } else {
                Some(acc)
            },
            None => None,
        }
    }
}

/// The sum in nanoseconds of the durations of the counted sessions.
pub open spec fn ledger_nanos(s: Seq<Session>, since: Option<int>) -> int
    decreases s.len(),
{
    if s.len() == 0 {
        0
    } else {
        ledger_nanos(s.drop_last(), since) + if counted(s.last(), since) {
            s.last().duration.nanos()
        } else {
            0
        }
    }
}

/// Every recorded duration is well formed.
pub open spec fn durations_wf(s: Seq<Session>) -> bool {
    forall|k: int| 0 <= k < s.len() ==> s[k].duration.wf()
}

/// Every recorded duration can be displayed.
pub open spec fn all_displayable(s: Seq<Session>) -> bool {
    forall|k: int| 0 <= k < s.len() ==> displayable(#[trigger] s[k].duration)
}

/// `line` shows session `s`: its start, and its duration where well formed.
pub open spec fn line_of(line: SessionLine, s: Session) -> bool {
    &&& line.played_on@ == zoned_text(s.timestamp)
    &&& s.duration.wf() ==> line.duration@ == span_text(s.duration.nanos())
}

/// `v` shows the sessions `s`, one line each, in order.
pub open spec fn lines_of(v: Seq<SessionLine>, s: Seq<Session>) -> bool {
    &&& v.len() == s.len()
    &&& forall|k: int| 0 <= k < v.len() ==> line_of(#[trigger] v[k], s[k])
}

/// `r` is the outcome that `o` describes.
pub open spec fn agrees(r: Result<Span, jiff::Error>, o: Option<Span>) -> bool {
    match r {
        Ok(v) => o == Some(v),
        Err(_) => o is None,
    }
}

pub open spec fn as_cutoff(since: Option<i128>) -> Option<int> {
    match since {
        Some(c) => Some(c as int),
        None => None,
    }
}

proof fn lemma_sum_stays_failed(s: Seq<Session>, since: Option<int>, k: int)
    requires
        0 <= k <= s.len(),
        ledger_sum(s.take(k), since) is None,
    ensures
        ledger_sum(s, since) is None,
    decreases s.len() - k,
{
    if k < s.len() {
        assert(s.take(k + 1).drop_last() =~= s.take(k));
        lemma_sum_stays_failed(s, since, k + 1);
    } else {
        assert(s.take(k) =~= s);
    }
}

/// Adds up the durations of the counted sessions, in order.
fn sum_sessions(sessions: &Vec<Session>, since: Option<i128>) -> (r: Result<Span, jiff::Error>)
    ensures
        agrees(r, ledger_sum(sessions@, as_cutoff(since))),
        r matches Ok(v) ==> (durations_wf(sessions@) ==> v.nanos() == ledger_nanos(
            sessions@,
            as_cutoff(since),
        ) && v.wf()),
{
    let ghost cut = as_cutoff(since);
    let mut acc = Span::zero();
    let mut i: usize = 0;
    while i < sessions.len()
        invariant
            i <= sessions@.len(),
            cut == as_cutoff(since),
            ledger_sum(sessions@.take(i as int), cut) == Some(acc),
            durations_wf(sessions@) ==> acc.nanos() == ledger_nanos(sessions@.take(i as int), cut)
                && acc.wf(),
        decreases sessions@.len() - i,
    {
        let s = &sessions[i];
        proof {
            assert(sessions@.take(i + 1).drop_last() =~= sessions@.take(i as int));
            assert(sessions@.take(i + 1).last() == sessions@[i as int]);
        }
        let take = match since {
            Some(c) => s.timestamp.instant > c,
            None => true,
        };
        if take {
            match span_checked_add(acc, s.duration) {
                Ok(v) => {
                    acc = v;
                },
                Err(e) => {
                    proof {
                        lemma_sum_stays_failed(sessions@, cut, i + 1);
                    }
                    return Err(e);
                },
            }
        }
        i += 1;
    }
    proof {
        assert(sessions@.take(i as int) =~= sessions@);
    }
    Ok(acc)
}

impl App {
    /// The total time recorded for this app: the checked sum of all its
    /// session durations, starting from the zero span.
    pub fn time(&self) -> (r: Result<Span, jiff::Error>)
        ensures
            agrees(r, ledger_sum(self.sessions@, None)),
            self.sessions@.len() == 0 ==> (r matches Ok(v) && v == Span::zero_spec()),
            r matches Ok(v) ==> (durations_wf(self.sessions@) ==> v.nanos() == ledger_nanos(
                self.sessions@,
                None,
            )),
    {
        sum_sessions(&self.sessions, None)
    }

    /// The time recorded for this app in sessions that began strictly after
    /// `since`.
    pub fn time_since(&self, since: ZonedTime) -> (r: Result<Span, jiff::Error>)
        ensures
            agrees(r, ledger_sum(self.sessions@, Some(since.instant as int))),
            r matches Ok(v) ==> (durations_wf(self.sessions@) ==> v.nanos() == ledger_nanos(
                self.sessions@,
                Some(since.instant as int),
            )),
    {
        sum_sessions(&self.sessions, Some(since.instant))
    }
}

impl Config {
    /// Names are unique among the registered apps.
    pub open spec fn wf(&self) -> bool {
        &&& names_unique(self.apps@)
        &&& forall|i: int| 0 <= i < self.apps@.len() ==> durations_wf(#[trigger] self.apps@[i].sessions@)
    }

    /// The first position of an app called `name`.
    fn position(&self, name: &String) -> (r: Option<usize>)
        ensures
            r matches Some(i) ==> is_first(self.apps@, name@, i as int),
            r is None <==> !has_app(self.apps@, name@),
    {
        let mut i: usize = 0;
        while i < self.apps.len()
            invariant
                i <= self.apps@.len(),
                forall|j: int| 0 <= j < i ==> self.apps@[j].name@ != name@,
            decreases self.apps@.len() - i,
        {
            if self.apps[i].name == *name {
                return Some(i);
            }
            i += 1;
        }
        None
    }

    /// Looks up the app called `name`.
    pub fn find(&self, name: &String) -> (r: Result<&App, Error>)
        ensures
            r matches Ok(a) ==> found(self.apps@, name@, *a),
            has_app(self.apps@, name@) ==> r is Ok,
            r is Err ==> (r matches Err(Error::AppNotFound(n)) && n@ == name@),
    {
        match self.position(name) {
            Some(i) => Ok(&self.apps[i]),
            None => Err(Error::AppNotFound(name.clone())),
        }
    }

    /// Registers an app called `name` that runs `exe`, with no sessions yet.
    pub fn add(&mut self, name: String, exe: String) -> (r: Result<(), Error>)
        ensures
            !has_app(old(self).apps@, name@) ==> (r is Ok && added(
                old(self).apps@,
                final(self).apps@,
                name@,
                exe@,
            )),
            has_app(old(self).apps@, name@) ==> (r matches Err(Error::AppExists(n)) && n@
                == name@),
            r is Err ==> *final(self) == *old(self),
            old(self).wf() ==> final(self).wf(),
    {
        if self.position(&name).is_some() {
            return Err(Error::AppExists(name));
        }
        let ghost before = self.apps@;
        self.apps.push(App { name, exe, sessions: Vec::new() });
        proof {
            assert(self.apps@.take(before.len() as int) =~= before);
        }
        Ok(())
    }

    /// Forgets the app called `name` together with its sessions.
    pub fn remove(&mut self, name: &String) -> (r: Result<(), Error>)
        ensures
            has_app(old(self).apps@, name@) ==> (r is Ok && removed(
                old(self).apps@,
                final(self).apps@,
                name@,
            )),
            !has_app(old(self).apps@, name@) ==> (r matches Err(Error::AppNotFound(n)) && n@
                == name@),
            r is Err ==> *final(self) == *old(self),
            old(self).wf() ==> final(self).wf(),
    {
        match self.position(name) {
            Some(i) => {
                let ghost before = self.apps@;
                self.apps.remove(i);
                proof {
                    assert(self.apps@ == before.remove(i as int));
                    assert forall|a: int, b: int|
                        0 <= a < self.apps@.len() && 0 <= b < self.apps@.len() && a != b
                            && names_unique(before) implies self.apps@[a].name@
                        != self.apps@[b].name@ by {
                        let x = if a < i { a } else { a + 1 };
                        let y = if b < i { b } else { b + 1 };
                        assert(self.apps@[a] == before[x]);
                        assert(self.apps@[b] == before[y]);
                    }
                }
                Ok(())
            },
            None => Err(Error::AppNotFound(name.clone())),
        }
    }

    /// For every app, its name, its executable, its total time and its time
    /// since `cutoff`; fails on the first sum that fails.
    pub fn list(&self, cutoff: &ZonedTime) -> (r: Result<Vec<AppSummary>, Error>)
        ensures
            r is Ok <==> forall|i: int|
                0 <= i < self.apps@.len() ==> ledger_sum(self.apps@[i].sessions@, None) is Some
                    && ledger_sum(self.apps@[i].sessions@, Some(cutoff.instant as int)) is Some,
            r matches Ok(v) ==> v@.len() == self.apps@.len() && forall|i: int|
                0 <= i < v@.len() ==> {
                    &&& v@[i].name@ == self.apps@[i].name@
                    &&& v@[i].exe@ == self.apps@[i].exe@
                    &&& ledger_sum(self.apps@[i].sessions@, None) == Some(v@[i].total)
                    &&& ledger_sum(self.apps@[i].sessions@, Some(cutoff.instant as int)) == Some(
                        v@[i].recent,
                    )
                },
            r is Err ==> r matches Err(Error::Span(_)),
    {
        let mut out: Vec<AppSummary> = Vec::new();
        let mut i: usize = 0;
        while i < self.apps.len()
            invariant
                i <= self.apps@.len(),
                out@.len() == i,
                forall|k: int|
                    0 <= k < i ==> {
                        &&& out@[k].name@ == self.apps@[k].name@
                        &&& out@[k].exe@ == self.apps@[k].exe@
                        &&& ledger_sum(self.apps@[k].sessions@, None) == Some(out@[k].total)
                        &&& ledger_sum(self.apps@[k].sessions@, Some(cutoff.instant as int))
                            == Some(out@[k].recent)
                    },
            decreases self.apps@.len() - i,
        {
            let app = &self.apps[i];
            let total = match app.time() {
                Ok(t) => t,
                Err(e) => {
                    assert(ledger_sum(self.apps@[i as int].sessions@, None) is None);
                    return Err(Error::Span(e));
                },
            };
            let recent = match sum_sessions(&app.sessions, Some(cutoff.instant)) {
                Ok(t) => t,
                Err(e) => {
                    assert(ledger_sum(self.apps@[i as int].sessions@, Some(cutoff.instant as int))
                        is None);
                    return Err(Error::Span(e));
                },
            };
            out.push(AppSummary { name: app.name.clone(), exe: app.exe.clone(), total, recent });
            i += 1;
        }
        assert forall|k: int| 0 <= k < self.apps@.len() implies ledger_sum(
            self.apps@[k].sessions@,
            None,
        ) is Some && ledger_sum(self.apps@[k].sessions@, Some(cutoff.instant as int)) is Some by {
            assert(out@[k].name@ == self.apps@[k].name@);
        }
        Ok(out)
    }

    /// The session list of the app called `name`, each with its start and its
    /// displayed duration, in the order recorded.
    pub fn sessions(&self, name: &String) -> (r: Result<Vec<SessionLine>, Error>)
        ensures
            !has_app(self.apps@, name@) ==> (r matches Err(Error::AppNotFound(n)) && n@
                == name@),
            has_app(self.apps@, name@) && r is Err ==> r matches Err(Error::Span(_)),
            forall|i: int|
                #[trigger] is_first(self.apps@, name@, i) && all_displayable(self.apps@[i].sessions@)
                    ==> r is Ok,
            r matches Ok(v) ==> exists|i: int|
                #[trigger] is_first(self.apps@, name@, i) && lines_of(v@, self.apps@[i].sessions@),
    {
        let pos = match self.position(name) {
            Some(p) => p,
            None => {
                return Err(Error::AppNotFound(name.clone()));
            },
        };
        let app = &self.apps[pos];
        let mut out: Vec<SessionLine> = Vec::new();
        let mut k: usize = 0;
        while k < app.sessions.len()
            invariant
                app == self.apps@[pos as int],
                is_first(self.apps@, name@, pos as int),
                k <= app.sessions@.len(),
                out@.len() == k,
                forall|j: int| 0 <= j < k ==> line_of(#[trigger] out@[j], app.sessions@[j]),
            decreases app.sessions@.len() - k,
        {
            let s = &app.sessions[k];
            let duration = match format_span(&s.duration) {
                Ok(d) => d,
                Err(e) => {
                    proof {
                        assert forall|i: int| #[trigger]
                            is_first(self.apps@, name@, i) implies !all_displayable(
                            self.apps@[i].sessions@,
                        ) by {
                            assert(i == pos);
                            assert(!displayable(app.sessions@[k as int].duration));
                        }
                    }
                    return Err(e);
                },
            };
            out.push(SessionLine { played_on: format_zoned(&s.timestamp), duration });
            k += 1;
        }
        proof {
            assert(lines_of(out@, app.sessions@));
        }
        Ok(out)
    }

    /// Records a finished run of the app called `name` that began at `began`
    /// and ended at `ended`. A run shorter than one second is left out.
    pub fn record_run(&mut self, name: &String, began: ZonedTime, ended: &ZonedTime) -> (r: Result<
        RunOutcome,
        Error,
    >)
        ensures
            !has_app(old(self).apps@, name@) ==> (r matches Err(Error::AppNotFound(n)) && n@
                == name@),
            has_app(old(self).apps@, name@) && r is Err ==> r matches Err(Error::Span(_)),
            has_app(old(self).apps@, name@) && in_instant_range(began.instant as int)
                && in_instant_range(ended.instant as int) ==> r is Ok,
            r is Err ==> *final(self) == *old(self),
            r matches Ok(RunOutcome::TooShort(d)) ==> {
                &&& balanced_to_hours(d, ended.instant - began.instant)
                &&& d.nanos() == ended.instant - began.instant
                &&& ended.instant - began.instant < NANOS_PER_SECOND
                &&& *final(self) == *old(self)
            },
            r matches Ok(RunOutcome::Recorded(d)) ==> {
                &&& balanced_to_hours(d, ended.instant - began.instant)
                &&& d.nanos() == ended.instant - began.instant
                &&& ended.instant - began.instant >= NANOS_PER_SECOND
                &&& exists|i: int| recorded(old(self).apps@, final(self).apps@, name@, i, Session { timestamp: began, duration: d })
            },
            old(self).wf() ==> final(self).wf(),
    {
        let pos = match self.position(name) {
            Some(p) => p,
            None => {
                return Err(Error::AppNotFound(name.clone()));
            },
        };
        let duration = match instant_until(began.instant, ended.instant) {
            Ok(d) => d,
            Err(e) => {
                return Err(Error::Span(e));
            },
        };
        proof {
            lemma_balanced_length(duration, ended.instant - began.instant);
        }
        if duration.total_nanoseconds() < NANOS_PER_SECOND {
            return Ok(RunOutcome::TooShort(duration));
        }
        let ghost before = self.apps@;
        let mut app = self.apps.remove(pos);
        app.sessions.push(Session { timestamp: began, duration });
        self.apps.insert(pos, app);
        proof {
            assert(recorded(before, self.apps@, name@, pos as int, Session { timestamp: began, duration }));
            assert forall|a: int, b: int|
                0 <= a < self.apps@.len() && 0 <= b < self.apps@.len() && a != b
                    && names_unique(before) implies self.apps@[a].name@
                != self.apps@[b].name@ by {
                assert(self.apps@[a].name@ == before[a].name@);
                assert(self.apps@[b].name@ == before[b].name@);
            }
        }
        Ok(RunOutcome::Recorded(duration))
    }
}

/// The time a week before `now`, in the same time zone: the start of the
/// window that counts as recent. It lies seven days back, give or take the
/// change of the zone's offset over the week.
pub fn recent_cutoff(now: &ZonedTime) -> (r: Result<ZonedTime, Error>)
    ensures
        r is Err ==> r matches Err(Error::Span(_)),
        r matches Ok(c) ==> WEEK_NANOS - OFFSET_SPREAD_NANOS <= now.instant - c.instant
            <= WEEK_NANOS + OFFSET_SPREAD_NANOS,
        in_instant_range(now.instant as int) && MIN_INSTANT + 2 * WEEK_NANOS <= now.instant
            ==> r is Ok,
{
    match week_before(now) {
        Ok(c) => Ok(c),
        Err(e) => Err(Error::Span(e)),
    }
}

/// `after` is `before` with `s` appended to the sessions of the app at `i`,
/// the first one called `name`, and nothing else changed.
pub open spec fn recorded(before: Seq<App>, after: Seq<App>, name: Seq<char>, i: int, s: Session) -> bool {
    &&& is_first(before, name, i)
    &&& after.len() == before.len()
    &&& forall|j: int| 0 <= j < before.len() && j != i ==> after[j] == before[j]
    &&& after[i].name == before[i].name
    &&& after[i].exe == before[i].exe
    &&& after[i].sessions@ == before[i].sessions@.push(s)
}

impl Default for Config {
    /// An empty registry, as on first use.
    fn default() -> (r: Config)
        ensures
            r.apps@.len() == 0,
            r.wf(),
    {
        Config { apps: Vec::new() }
    }
}

/// A lookup right after adding `name` to a registry that lacked it finds the
/// new app: its name and executable are those given and it has no sessions.
pub proof fn lemma_add_then_find(
    before: Seq<App>,
    after: Seq<App>,
    name: Seq<char>,
    exe: Seq<char>,
    a: App,
)
    requires
        !has_app(before, name),
        added(before, after, name, exe),
    ensures
        has_app(after, name),
        found(after, name, a) ==> a.name@ == name && a.exe@ == exe && a.sessions@.len() == 0,
{
    let n = before.len() as int;
    assert(after[n].name@ == name);
    if found(after, name, a) {
        let i = choose|i: int| is_first(after, name, i) && a == after[i];
        if i < n {
            assert(after.take(n)[i] == after[i]);
            assert(before[i].name@ == name);
        }
    }
}

/// Once `name` is removed from a registry whose names are unique, a lookup of
/// `name` finds nothing.
pub proof fn lemma_remove_then_find(before: Seq<App>, after: Seq<App>, name: Seq<char>)
    requires
        names_unique(before),
        removed(before, after, name),
    ensures
        !has_app(after, name),
{
    let i = choose|i: int| is_first(before, name, i) && after == before.remove(i);
    assert forall|k: int| 0 <= k < after.len() implies after[k].name@ != name by {
        let x = if k < i {
            k
        } else {
            k + 1
        };
        assert(after[k] == before[x]);
    }
}

/// A session that began exactly at the cutoff adds nothing to the time
/// recorded since the cutoff.
pub proof fn lemma_session_at_cutoff_excluded(s: Seq<Session>, x: Session, cutoff: int)
    requires
        x.timestamp.instant == cutoff,
    ensures
        ledger_sum(s.push(x), Some(cutoff)) == ledger_sum(s, Some(cutoff)),
        ledger_nanos(s.push(x), Some(cutoff)) == ledger_nanos(s, Some(cutoff)),
{
    assert(s.push(x).drop_last() =~= s);
}

/// The length of the counted sessions of two ledgers put end to end is the
/// sum of their lengths.
pub proof fn lemma_ledger_nanos_concat(s: Seq<Session>, t: Seq<Session>, since: Option<int>)
    ensures
        ledger_nanos(s + t, since) == ledger_nanos(s, since) + ledger_nanos(t, since),
    decreases t.len(),
{
    if t.len() == 0 {
        assert(s + t =~= s);
    } else {
        assert((s + t).drop_last() =~= s + t.drop_last());
        assert((s + t).last() == t.last());
        lemma_ledger_nanos_concat(s, t.drop_last(), since);
    }
}

/// The total length of an app's sessions does not depend on the order in
/// which two runs of sessions were recorded.
pub proof fn lemma_total_order_free(s: Seq<Session>, t: Seq<Session>)
    ensures
        ledger_nanos(s + t, None) == ledger_nanos(t + s, None),
{
    lemma_ledger_nanos_concat(s, t, None);
    lemma_ledger_nanos_concat(t, s, None);
}

} // verus!
