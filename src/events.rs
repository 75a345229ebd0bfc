use vstd::prelude::*;

verus! {

/// A tournament was created.
pub struct TournamentCreateLog {
    pub tournament_id: String,
    pub players_number: u8,
    pub in_price: u128,
}

/// An account entered a tournament.
pub struct TournamentEntranceLog {
    pub partisipator_id: String,
    pub tournament_id: String,
}

/// The prizes of a tournament were distributed.
pub struct TournamentPrizesRewardLog {
    pub tournament_id: String,
    pub rewarded_amount: u128,
}

/// The kind of an event, with its records.
pub enum EventLogVariant {
    TournamentCreate(Vec<TournamentCreateLog>),
    TournamentEntrance(Vec<TournamentEntranceLog>),
    TournamentPrizesReward(Vec<TournamentPrizesRewardLog>),
}

/// An event ready to be logged: a format version and the event.
pub struct EventLog {
    pub version: String,
    pub event: EventLogVariant,
}

/// The format version that events carry.
pub open spec fn event_version() -> Seq<char> {
    seq!['1', '.', '0', '.', '0']
}

/// An event in version `event_version()`.
fn new_mf1_v1(event: EventLogVariant) -> (r: EventLog)
    ensures
        r.version@ == event_version(),
        r.event == event,
{
    proof {
        reveal_strlit("1.0.0");
    }
    let r = new_mf1("1.0.0", event);
    assert(r.version@ =~= event_version());
    r
}

/// An event in the given version.
fn new_mf1(version: &str, event: EventLogVariant) -> (r: EventLog)
    ensures
        r.version@ == version@,
        r.event == event,
{
    EventLog { version: version.to_owned(), event }
}

impl TournamentCreateLog {
    /// Copies the record.
    pub fn copy(&self) -> (r: Self)
        ensures
            r == *self,
    {
        TournamentCreateLog {
            tournament_id: self.tournament_id.clone(),
            players_number: self.players_number,
            in_price: self.in_price,
        }
    }

    /// The creation event for this record alone.
    pub fn emit(self) -> (r: EventLog)
        ensures
            r.version@ == event_version(),
            r.event matches EventLogVariant::TournamentCreate(v) && v@ == seq![self],
    {
        let one: Vec<TournamentCreateLog> = vec![self];
        new_mf1_v1(EventLogVariant::TournamentCreate(one))
    }

    /// The creation event for these records.
    pub fn emit_many(data: &[TournamentCreateLog]) -> (r: EventLog)
        ensures
            r.version@ == event_version(),
            r.event matches EventLogVariant::TournamentCreate(v) && v@ == data@,
    {
        let mut v: Vec<TournamentCreateLog> = Vec::new();
        let mut i: usize = 0;
        while i < data.len()
            invariant
                i <= data@.len(),
                v@ == data@.subrange(0, i as int),
            decreases data@.len() - i,
        {
            v.push(data[i].copy());
            i = i + 1;
            assert(v@ =~= data@.subrange(0, i as int));
        }
        assert(v@ =~= data@);
        new_mf1_v1(EventLogVariant::TournamentCreate(v))
    }
}

impl TournamentEntranceLog {
    /// Copies the record.
    pub fn copy(&self) -> (r: Self)
        ensures
            r == *self,
    {
        TournamentEntranceLog {
            partisipator_id: self.partisipator_id.clone(),
            tournament_id: self.tournament_id.clone(),
        }
    }

    /// The entrance event for this record alone.
    pub fn emit(self) -> (r: EventLog)
        ensures
            r.version@ == event_version(),
            r.event matches EventLogVariant::TournamentEntrance(v) && v@ == seq![self],
    {
        let one: Vec<TournamentEntranceLog> = vec![self];
        new_mf1_v1(EventLogVariant::TournamentEntrance(one))
    }

    /// The entrance event for these records.
    pub fn emit_many(data: &[TournamentEntranceLog]) -> (r: EventLog)
        ensures
            r.version@ == event_version(),
            r.event matches EventLogVariant::TournamentEntrance(v) && v@ == data@,
    {
        let mut v: Vec<TournamentEntranceLog> = Vec::new();
        let mut i: usize = 0;
        while i < data.len()
            invariant
                i <= data@.len(),
                v@ == data@.subrange(0, i as int),
            decreases data@.len() - i,
        {
            v.push(data[i].copy());
            i = i + 1;
            assert(v@ =~= data@.subrange(0, i as int));
        }
        assert(v@ =~= data@);
        new_mf1_v1(EventLogVariant::TournamentEntrance(v))
    }
}

impl TournamentPrizesRewardLog {
    /// Copies the record.
    pub fn copy(&self) -> (r: Self)
        ensures
            r == *self,
    {
        TournamentPrizesRewardLog {
            tournament_id: self.tournament_id.clone(),
            rewarded_amount: self.rewarded_amount,
        }
    }

    /// The prize event for this record alone.
    pub fn emit(self) -> (r: EventLog)
        ensures
            r.version@ == event_version(),
            r.event matches EventLogVariant::TournamentPrizesReward(v) && v@ == seq![self],
    {
        let one: Vec<TournamentPrizesRewardLog> = vec![self];
        new_mf1_v1(EventLogVariant::TournamentPrizesReward(one))
    }

    /// The prize event for these records.
    pub fn emit_many(data: &[TournamentPrizesRewardLog]) -> (r: EventLog)
        ensures
            r.version@ == event_version(),
            r.event matches EventLogVariant::TournamentPrizesReward(v) && v@ == data@,
    {
        let mut v: Vec<TournamentPrizesRewardLog> = Vec::new();
        let mut i: usize = 0;
        while i < data.len()
            invariant
                i <= data@.len(),
                v@ == data@.subrange(0, i as int),
            decreases data@.len() - i,
        {
            v.push(data[i].copy());
            i = i + 1;
            assert(v@ =~= data@.subrange(0, i as int));
        }
        assert(v@ =~= data@);
        new_mf1_v1(EventLogVariant::TournamentPrizesReward(v))
    }
}

} // verus!
