//! The domain model: the event payload, its versioned envelope, and their
//! mathematical views. A record's version starts at 0 and is incremented by
//! exactly 1 on every accepted mutation.

use vstd::prelude::*;

verus! {

/// The view of an optional string.
pub open spec fn opt_str_view(o: Option<String>) -> Option<Seq<char>> {
    match o {
        Some(s) => Some(s@),
        None => None,
    }
}

/// Identity tokens of an event: the public token is required and determines
/// the storage key; the moderator token is optional.
#[derive(Clone, Debug, PartialEq, Eq)]
pub struct EventTokens {
    pub public_token: String,
    pub moderator_token: Option<String>,
}

#[verifier::ext_equal]
pub ghost struct EventTokensV {
    pub public_token: Seq<char>,
    pub moderator_token: Option<Seq<char>>,
}

impl View for EventTokens {
    type V = EventTokensV;

    open spec fn view(&self) -> EventTokensV {
        EventTokensV {
            public_token: self.public_token@,
            moderator_token: opt_str_view(self.moderator_token),
        }
    }
}

/// Descriptive data of an event.
#[derive(Clone, Debug, PartialEq, Eq)]
pub struct EventData {
    pub name: String,
    pub description: String,
    pub short_url: String,
    pub long_url: Option<String>,
    pub mail: Option<String>,
}

#[verifier::ext_equal]
pub ghost struct EventDataV {
    pub name: Seq<char>,
    pub description: Seq<char>,
    pub short_url: Seq<char>,
    pub long_url: Option<Seq<char>>,
    pub mail: Option<Seq<char>>,
}

impl View for EventData {
    type V = EventDataV;

    open spec fn view(&self) -> EventDataV {
        EventDataV {
            name: self.name@,
            description: self.description@,
            short_url: self.short_url@,
            long_url: opt_str_view(self.long_url),
            mail: opt_str_view(self.mail),
        }
    }
}

/// One question item of an event.
#[derive(Clone, Debug, PartialEq, Eq)]
pub struct QuestionItem {
    pub id: i64,
    pub likes: i32,
    pub text: String,
    pub hidden: bool,
    pub answered: bool,
    pub create_time_unix: i64,
}

#[verifier::ext_equal]
pub ghost struct QuestionItemV {
    pub id: int,
    pub likes: int,
    pub text: Seq<char>,
    pub hidden: bool,
    pub answered: bool,
    pub create_time_unix: int,
}

impl View for QuestionItem {
    type V = QuestionItemV;

    open spec fn view(&self) -> QuestionItemV {
        QuestionItemV {
            id: self.id as int,
            likes: self.likes as int,
            text: self.text@,
            hidden: self.hidden,
            answered: self.answered,
            create_time_unix: self.create_time_unix as int,
        }
    }
}

impl QuestionItemV {
    /// The numeric fields fit the machine types they are stored from.
    pub open spec fn wf(self) -> bool {
        &&& i64::MIN <= self.id <= i64::MAX
        &&& i32::MIN <= self.likes <= i32::MAX
        &&& i64::MIN <= self.create_time_unix <= i64::MAX
    }
}

/// Lifecycle state of an event.
#[derive(Clone, Copy, Debug, PartialEq, Eq, Structural)]
pub enum States {
    Open,
    VotingOnly,
    Closed,
}

/// The lifecycle state as the payload carries it.
#[derive(Clone, Copy, Debug, PartialEq, Eq, Structural)]
pub struct EventState {
    pub state: States,
}

impl View for EventState {
    type V = EventState;

    open spec fn view(&self) -> EventState {
        *self
    }
}

/// The event payload as the store persists it.
#[derive(Clone, Debug, PartialEq, Eq)]
pub struct ApiEventInfo {
    pub tokens: EventTokens,
    pub data: EventData,
    pub create_time_unix: i64,
    pub delete_time_unix: i64,
    pub deleted: bool,
    pub last_edit_unix: i64,
    pub questions: Vec<QuestionItem>,
    pub state: EventState,
    pub premium_order: Option<String>,
}

#[verifier::ext_equal]
pub ghost struct ApiEventInfoV {
    pub tokens: EventTokensV,
    pub data: EventDataV,
    pub create_time_unix: int,
    pub delete_time_unix: int,
    pub deleted: bool,
    pub last_edit_unix: int,
    pub questions: Seq<QuestionItemV>,
    pub state: EventState,
    pub premium_order: Option<Seq<char>>,
}

impl View for ApiEventInfo {
    type V = ApiEventInfoV;

    open spec fn view(&self) -> ApiEventInfoV {
        ApiEventInfoV {
            tokens: self.tokens@,
            data: self.data@,
            create_time_unix: self.create_time_unix as int,
            delete_time_unix: self.delete_time_unix as int,
            deleted: self.deleted,
            last_edit_unix: self.last_edit_unix as int,
            questions: Seq::new(self.questions@.len(), |i: int| self.questions@[i]@),
            state: self.state,
            premium_order: opt_str_view(self.premium_order),
        }
    }
}

impl ApiEventInfoV {
    /// The numeric fields fit the machine types they are stored from.
    pub open spec fn wf(self) -> bool {
        &&& i64::MIN <= self.create_time_unix <= i64::MAX
        &&& i64::MIN <= self.delete_time_unix <= i64::MAX
        &&& i64::MIN <= self.last_edit_unix <= i64::MAX
        &&& forall|i: int| 0 <= i < self.questions.len() ==> (#[trigger] self.questions[i]).wf()
    }
}

/// The versioned envelope of a stored record: the payload, its version
/// counter, and an optional absolute expiry timestamp in epoch seconds.
#[derive(Clone, Debug, PartialEq, Eq)]
pub struct EventEntry {
    pub event: ApiEventInfo,
    pub version: usize,
    pub ttl: Option<i64>,
}

#[verifier::ext_equal]
pub ghost struct EventEntryV {
    pub event: ApiEventInfoV,
    pub version: int,
    pub ttl: Option<int>,
}

impl View for EventEntry {
    type V = EventEntryV;

    open spec fn view(&self) -> EventEntryV {
        EventEntryV {
            event: self.event@,
            version: self.version as int,
            ttl: match self.ttl {
                Some(t) => Some(t as int),
                None => None,
            },
        }
    }
}

impl EventEntryV {
    /// The numeric fields fit the machine types they are stored from.
    pub open spec fn wf(self) -> bool {
        &&& self.event.wf()
        &&& 0 <= self.version <= usize::MAX
        &&& match self.ttl {
            Some(t) => i64::MIN <= t <= i64::MAX,
            None => true,
        }
    }
}

/// The view of any machine-held entry is well formed.
pub proof fn lemma_entry_view_wf(e: &EventEntry)
    ensures
        e@.wf(),
{
    assert forall|i: int| 0 <= i < e@.event.questions.len() implies (#[trigger] e@.event.questions[i]).wf() by {
        assert(e@.event.questions[i] == e.event.questions@[i]@);
    }
}

impl EventEntry {
    /// A freshly created record: version 0, the given payload and expiry.
    pub fn new(event: ApiEventInfo, ttl: Option<i64>) -> (r: Self)
        ensures
            r.event == event,
            r.version == 0,
            r.ttl == ttl,
    {
        Self { event, version: 0, ttl }
    }

    /// Prepare the next mutation: bump the version by exactly 1 and stamp the
    /// last-edit time with the given clock reading. Nothing else changes.
    pub fn bump(&mut self, now_unix: i64)
        requires
            old(self).version < usize::MAX,
        ensures
            final(self).version == old(self).version + 1,
            final(self).event.last_edit_unix == now_unix,
            final(self).event.tokens == old(self).event.tokens,
            final(self).event.data == old(self).event.data,
            final(self).event.create_time_unix == old(self).event.create_time_unix,
            final(self).event.delete_time_unix == old(self).event.delete_time_unix,
            final(self).event.deleted == old(self).event.deleted,
            final(self).event.questions == old(self).event.questions,
            final(self).event.state == old(self).event.state,
            final(self).event.premium_order == old(self).event.premium_order,
            final(self).ttl == old(self).ttl,
    {
        self.version = self.version + 1;
        self.event.last_edit_unix = now_unix;
    }
}

/// The payload as the business-logic layer consumes it: `premium` summarizes
/// whether a premium order is attached.
#[derive(Clone, Debug, PartialEq, Eq)]
pub struct EventInfo {
    pub tokens: EventTokens,
    pub data: EventData,
    pub create_time_unix: i64,
    pub delete_time_unix: i64,
    pub deleted: bool,
    pub last_edit_unix: i64,
    pub questions: Vec<QuestionItem>,
    pub state: EventState,
    pub premium: bool,
}

impl vstd::std_specs::convert::FromSpecImpl<ApiEventInfo> for EventInfo {
    open spec fn obeys_from_spec() -> bool {
        true
    }

    open spec fn from_spec(v: ApiEventInfo) -> EventInfo {
        EventInfo {
            tokens: v.tokens,
            data: v.data,
            create_time_unix: v.create_time_unix,
            delete_time_unix: v.delete_time_unix,
            deleted: v.deleted,
            last_edit_unix: v.last_edit_unix,
            questions: v.questions,
            state: v.state,
            premium: v.premium_order is Some,
        }
    }
}

impl From<ApiEventInfo> for EventInfo {
    fn from(val: ApiEventInfo) -> (r: Self) {
        let premium = val.premium_order.is_some();
        Self {
            tokens: val.tokens,
            data: val.data,
            create_time_unix: val.create_time_unix,
            delete_time_unix: val.delete_time_unix,
            deleted: val.deleted,
            last_edit_unix: val.last_edit_unix,
            questions: val.questions,
            state: val.state,
            premium,
        }
    }
}

} // verus!
