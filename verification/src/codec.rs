//! The attribute codec: bidirectional conversion between the versioned record
//! and the generic attribute mapping under which it is persisted.
//!
//! Every domain field maps to exactly one named entry; nested structures map
//! to nested sub-mappings; lists map to ordered lists of sub-mappings.
//! Optional fields are omitted entirely when absent, and absence decodes back
//! to the absent value. Numbers travel as canonical decimal text; a number
//! that fails to parse decodes to a malformed-field error naming the field.
//! A format tag is embedded in every encoded record and only the single known
//! format is accepted.

use vstd::prelude::*;
use vstd::string::*;

use crate::attr::{
    entries_view, lemma_l_view, lemma_lookup_absent, lemma_lookup_first_match, lemma_m_view,
    list_view, map_get, spec_lookup, AttrV, AttributeMap, AttributeValue,
};
use crate::error::{Error, ErrorV};
use crate::num::{
    all_dec_digits, dec_of_int, dec_of_nat, dec_value, i64_to_dec, parse_i64_dec, parse_u64_dec,
    signed_dec_value, u64_to_dec,
};
use crate::types::{
    ApiEventInfo, ApiEventInfoV, EventData, EventDataV, EventEntry, EventEntryV, EventState,
    EventTokens, EventTokensV, QuestionItem, QuestionItemV, States,
};

verus! {

/// The format tag embedded in every encoded record.
pub const CURRENT_FORMAT: u64 = 1;

/// The mathematical result of a fallible conversion.
pub open spec fn res_view<T: View>(r: Result<T, Error>) -> Result<T::V, ErrorV> {
    match r {
        Ok(x) => Ok(x@),
        Err(e) => Err(e@),
    }
}

/// The storage key derived from the public token: a fixed namespace prefix
/// concatenated with the token.
pub open spec fn event_key_of(token: Seq<char>) -> Seq<char> {
    "events-"@ + token
}

/// The numeric code of a lifecycle state.
pub open spec fn state_code(s: States) -> nat {
    match s {
        States::Open => 0,
        States::VotingOnly => 1,
        States::Closed => 2,
    }
}

/// The lifecycle state of a numeric code, if the code is known.
pub open spec fn state_of_code(c: int) -> Option<States> {
    if c == 0 {
        Some(States::Open)
    } else if c == 1 {
        Some(States::VotingOnly)
    } else if c == 2 {
        Some(States::Closed)
    } else {
        None
    }
}

// ---------------------------------------------------------------------------
// Spec-level encoding.
// ---------------------------------------------------------------------------

pub open spec fn encoded_tokens(t: EventTokensV) -> AttrV {
    AttrV::M(
        match t.moderator_token {
            Some(m) => seq![
                ("public_token"@, AttrV::S(t.public_token)),
                ("moderator_token"@, AttrV::S(m)),
            ],
            None => seq![("public_token"@, AttrV::S(t.public_token))],
        },
    )
}

pub open spec fn encoded_data(d: EventDataV) -> AttrV {
    AttrV::M(
        {
            let base = seq![
                ("name"@, AttrV::S(d.name)),
                ("description"@, AttrV::S(d.description)),
                ("short_url"@, AttrV::S(d.short_url)),
            ];
            let with_long = match d.long_url {
                Some(u) => base.push(("long_url"@, AttrV::S(u))),
                None => base,
            };
            match d.mail {
                Some(a) => with_long.push(("mail"@, AttrV::S(a))),
                None => with_long,
            }
        },
    )
}

pub open spec fn encoded_question(q: QuestionItemV) -> AttrV {
    AttrV::M(
        seq![
            ("id"@, AttrV::N(dec_of_int(q.id))),
            ("likes"@, AttrV::N(dec_of_int(q.likes))),
            ("text"@, AttrV::S(q.text)),
            ("hidden"@, AttrV::Bool(q.hidden)),
            ("answered"@, AttrV::Bool(q.answered)),
            ("create_time_unix"@, AttrV::N(dec_of_int(q.create_time_unix))),
        ],
    )
}

pub open spec fn encoded_state(s: EventState) -> AttrV {
    AttrV::M(seq![("state"@, AttrV::N(dec_of_nat(state_code(s.state))))])
}

pub open spec fn encoded_questions(qs: Seq<QuestionItemV>) -> Seq<AttrV> {
    Seq::new(qs.len(), |i: int| encoded_question(qs[i]))
}

pub open spec fn encoded_event(e: ApiEventInfoV) -> AttrV {
    AttrV::M(
        {
            let base = seq![
                ("tokens"@, encoded_tokens(e.tokens)),
                ("data"@, encoded_data(e.data)),
                ("createTimeUnix"@, AttrV::N(dec_of_int(e.create_time_unix))),
                ("deleteTimeUnix"@, AttrV::N(dec_of_int(e.delete_time_unix))),
                ("deleted"@, AttrV::Bool(e.deleted)),
                ("lastEditUnix"@, AttrV::N(dec_of_int(e.last_edit_unix))),
                ("questions"@, AttrV::L(encoded_questions(e.questions))),
                ("state"@, encoded_state(e.state)),
            ];
            match e.premium_order {
                Some(p) => base.push(("premium_order"@, AttrV::S(p))),
                None => base,
            }
        },
    )
}

/// The full encoded record: storage key, format tag, version counter, payload
/// container, and the expiry stamp where present.
pub open spec fn encoded_entry(e: EventEntryV) -> Seq<(Seq<char>, AttrV)> {
    let base = seq![
        ("key"@, AttrV::S(event_key_of(e.event.tokens.public_token))),
        ("v"@, AttrV::N(dec_of_nat(e.version as nat))),
        ("format"@, AttrV::N(dec_of_nat(CURRENT_FORMAT as nat))),
        ("event"@, encoded_event(e.event)),
    ];
    match e.ttl {
        Some(t) => base.push(("ttl"@, AttrV::N(dec_of_int(t)))),
        None => base,
    }
}

// ---------------------------------------------------------------------------
// Spec-level decoding.
// ---------------------------------------------------------------------------

/// The value of a decimal text field, when it denotes an `i64`.
pub open spec fn dec_i64_of(s: Seq<char>) -> Option<int> {
    match signed_dec_value(s) {
        Some(x) => if i64::MIN <= x <= i64::MAX {
            Some(x)
        } else {
            None
        },
        None => None,
    }
}

/// The value of a decimal text field, when it denotes a version counter:
/// a non-negative integer that fits the machine word.
pub open spec fn dec_version_of(s: Seq<char>) -> Option<int> {
    if s.len() > 0 && all_dec_digits(s) && dec_value(s) <= usize::MAX {
        Some(dec_value(s))
    } else {
        None
    }
}

/// A required string field.
pub open spec fn req_str(es: Seq<(Seq<char>, AttrV)>, key: Seq<char>) -> Result<
    Seq<char>,
    ErrorV,
> {
    match spec_lookup(es, key) {
        Some(AttrV::S(s)) => Ok(s),
        _ => Err(ErrorV::Malformed(key)),
    }
}

/// An optional string field: absence is not an error.
pub open spec fn opt_str(es: Seq<(Seq<char>, AttrV)>, key: Seq<char>) -> Result<
    Option<Seq<char>>,
    ErrorV,
> {
    match spec_lookup(es, key) {
        None => Ok(None),
        Some(AttrV::S(s)) => Ok(Some(s)),
        Some(_) => Err(ErrorV::Malformed(key)),
    }
}

/// A required boolean field.
pub open spec fn req_bool(es: Seq<(Seq<char>, AttrV)>, key: Seq<char>) -> Result<bool, ErrorV> {
    match spec_lookup(es, key) {
        Some(AttrV::Bool(b)) => Ok(b),
        _ => Err(ErrorV::Malformed(key)),
    }
}

/// A required number field holding an `i64`.
pub open spec fn req_i64(es: Seq<(Seq<char>, AttrV)>, key: Seq<char>) -> Result<int, ErrorV> {
    match spec_lookup(es, key) {
        Some(AttrV::N(s)) => match dec_i64_of(s) {
            Some(x) => Ok(x),
            None => Err(ErrorV::Malformed(key)),
        },
        _ => Err(ErrorV::Malformed(key)),
    }
}

/// A required number field holding an `i32`.
pub open spec fn req_i32(es: Seq<(Seq<char>, AttrV)>, key: Seq<char>) -> Result<int, ErrorV> {
    match req_i64(es, key) {
        Ok(x) => if i32::MIN <= x <= i32::MAX {
            Ok(x)
        } else {
            Err(ErrorV::Malformed(key))
        },
        Err(e) => Err(e),
    }
}

pub open spec fn decoded_tokens(v: AttrV) -> Result<EventTokensV, ErrorV> {
    match v {
        AttrV::M(es) => match req_str(es, "public_token"@) {
            Ok(p) => match opt_str(es, "moderator_token"@) {
                Ok(m) => Ok(EventTokensV { public_token: p, moderator_token: m }),
                Err(e) => Err(e),
            },
            Err(e) => Err(e),
        },
        _ => Err(ErrorV::Malformed("tokens"@)),
    }
}

pub open spec fn decoded_data(v: AttrV) -> Result<EventDataV, ErrorV> {
    match v {
        AttrV::M(es) => {
            if req_str(es, "name"@) is Err {
                Err(req_str(es, "name"@)->Err_0)
            } else if req_str(es, "description"@) is Err {
                Err(req_str(es, "description"@)->Err_0)
            } else if req_str(es, "short_url"@) is Err {
                Err(req_str(es, "short_url"@)->Err_0)
            } else if opt_str(es, "long_url"@) is Err {
                Err(opt_str(es, "long_url"@)->Err_0)
            } else if opt_str(es, "mail"@) is Err {
                Err(opt_str(es, "mail"@)->Err_0)
            } else {
                Ok(
                    EventDataV {
                        name: req_str(es, "name"@)->Ok_0,
                        description: req_str(es, "description"@)->Ok_0,
                        short_url: req_str(es, "short_url"@)->Ok_0,
                        long_url: opt_str(es, "long_url"@)->Ok_0,
                        mail: opt_str(es, "mail"@)->Ok_0,
                    },
                )
            }
        },
        _ => Err(ErrorV::Malformed("data"@)),
    }
}

pub open spec fn decoded_question(v: AttrV) -> Result<QuestionItemV, ErrorV> {
    match v {
        AttrV::M(es) => {
            if req_i64(es, "id"@) is Err {
                Err(req_i64(es, "id"@)->Err_0)
            } else if req_i32(es, "likes"@) is Err {
                Err(req_i32(es, "likes"@)->Err_0)
            } else if req_str(es, "text"@) is Err {
                Err(req_str(es, "text"@)->Err_0)
            } else if req_bool(es, "hidden"@) is Err {
                Err(req_bool(es, "hidden"@)->Err_0)
            } else if req_bool(es, "answered"@) is Err {
                Err(req_bool(es, "answered"@)->Err_0)
            } else if req_i64(es, "create_time_unix"@) is Err {
                Err(req_i64(es, "create_time_unix"@)->Err_0)
            } else {
                Ok(
                    QuestionItemV {
                        id: req_i64(es, "id"@)->Ok_0,
                        likes: req_i32(es, "likes"@)->Ok_0,
                        text: req_str(es, "text"@)->Ok_0,
                        hidden: req_bool(es, "hidden"@)->Ok_0,
                        answered: req_bool(es, "answered"@)->Ok_0,
                        create_time_unix: req_i64(es, "create_time_unix"@)->Ok_0,
                    },
                )
            }
        },
        _ => Err(ErrorV::Malformed("questions"@)),
    }
}

/// Decode the items of the question list from position `i` on; the first
/// failing item's error wins.
pub open spec fn decoded_questions(items: Seq<AttrV>, i: int) -> Result<Seq<QuestionItemV>, ErrorV>
    decreases items.len() - i,
{
    if i < 0 || i >= items.len() {
        Ok(Seq::empty())
    } else {
        match decoded_question(items[i]) {
            Ok(q) => match decoded_questions(items, i + 1) {
                Ok(rest) => Ok(seq![q] + rest),
                Err(e) => Err(e),
            },
            Err(e) => Err(e),
        }
    }
}

pub open spec fn decoded_state(v: AttrV) -> Result<EventState, ErrorV> {
    match v {
        AttrV::M(es) => match req_i64(es, "state"@) {
            Ok(c) => match state_of_code(c) {
                Some(s) => Ok(EventState { state: s }),
                None => Err(ErrorV::Malformed("state"@)),
            },
            Err(e) => Err(e),
        },
        _ => Err(ErrorV::Malformed("state"@)),
    }
}

pub open spec fn decoded_questions_field(es: Seq<(Seq<char>, AttrV)>) -> Result<
    Seq<QuestionItemV>,
    ErrorV,
> {
    match spec_lookup(es, "questions"@) {
        Some(AttrV::L(items)) => decoded_questions(items, 0),
        _ => Err(ErrorV::Malformed("questions"@)),
    }
}

pub open spec fn decoded_event(v: AttrV) -> Result<ApiEventInfoV, ErrorV> {
    match v {
        AttrV::M(es) => {
            let tokens_r = match spec_lookup(es, "tokens"@) {
                Some(t) => decoded_tokens(t),
                None => Err(ErrorV::Malformed("tokens"@)),
            };
            let data_r = match spec_lookup(es, "data"@) {
                Some(d) => decoded_data(d),
                None => Err(ErrorV::Malformed("data"@)),
            };
            let state_r = match spec_lookup(es, "state"@) {
                Some(s) => decoded_state(s),
                None => Err(ErrorV::Malformed("state"@)),
            };
            if tokens_r is Err {
                Err(tokens_r->Err_0)
            } else if data_r is Err {
                Err(data_r->Err_0)
            } else if req_i64(es, "createTimeUnix"@) is Err {
                Err(req_i64(es, "createTimeUnix"@)->Err_0)
            } else if req_i64(es, "deleteTimeUnix"@) is Err {
                Err(req_i64(es, "deleteTimeUnix"@)->Err_0)
            } else if req_bool(es, "deleted"@) is Err {
                Err(req_bool(es, "deleted"@)->Err_0)
            } else if req_i64(es, "lastEditUnix"@) is Err {
                Err(req_i64(es, "lastEditUnix"@)->Err_0)
            } else if decoded_questions_field(es) is Err {
                Err(decoded_questions_field(es)->Err_0)
            } else if state_r is Err {
                Err(state_r->Err_0)
            } else if opt_str(es, "premium_order"@) is Err {
                Err(opt_str(es, "premium_order"@)->Err_0)
            } else {
                Ok(
                    ApiEventInfoV {
                        tokens: tokens_r->Ok_0,
                        data: data_r->Ok_0,
                        create_time_unix: req_i64(es, "createTimeUnix"@)->Ok_0,
                        delete_time_unix: req_i64(es, "deleteTimeUnix"@)->Ok_0,
                        deleted: req_bool(es, "deleted"@)->Ok_0,
                        last_edit_unix: req_i64(es, "lastEditUnix"@)->Ok_0,
                        questions: decoded_questions_field(es)->Ok_0,
                        state: state_r->Ok_0,
                        premium_order: opt_str(es, "premium_order"@)->Ok_0,
                    },
                )
            }
        },
        _ => Err(ErrorV::Malformed("event"@)),
    }
}

/// The version counter of a stored item, when it parses.
pub open spec fn decoded_version(m: Seq<(Seq<char>, AttrV)>) -> Result<int, ErrorV> {
    match spec_lookup(m, "v"@) {
        Some(AttrV::N(s)) => match dec_version_of(s) {
            Some(x) => Ok(x),
            None => Err(ErrorV::Malformed("v"@)),
        },
        _ => Err(ErrorV::Malformed("v"@)),
    }
}

/// Whether the stored format tag is the single known format.
pub open spec fn format_ok(m: Seq<(Seq<char>, AttrV)>) -> bool {
    match spec_lookup(m, "format"@) {
        Some(AttrV::N(s)) => s.len() > 0 && all_dec_digits(s) && dec_value(s)
            == CURRENT_FORMAT as int,
        _ => false,
    }
}

/// The expiry stamp of a stored item; absent or unparseable stamps are
/// tolerated as absent.
pub open spec fn decoded_ttl(m: Seq<(Seq<char>, AttrV)>) -> Option<int> {
    match spec_lookup(m, "ttl"@) {
        Some(AttrV::N(s)) => dec_i64_of(s),
        _ => None,
    }
}

// ---------------------------------------------------------------------------
// Executable encoding.
// ---------------------------------------------------------------------------

/// Derive the storage key for a public token: the namespace prefix followed
/// by the token, so records never collide with other key namespaces.
pub fn event_key(token: &str) -> (r: String)
    ensures
        r@ == event_key_of(token@),
{
    let mut s = String::from_str("events-");
    s.append(token);
    s
}

fn tokens_to_attributes(t: EventTokens) -> (r: AttributeValue)
    ensures
        r@ == encoded_tokens(t@),
{
    let ghost t0 = t;
    let EventTokens { public_token, moderator_token } = t;
    let mut m: AttributeMap = Vec::new();
    m.push((String::from_str("public_token"), AttributeValue::S(public_token)));
    match moderator_token {
        Some(s) => m.push((String::from_str("moderator_token"), AttributeValue::S(s))),
        None => (),
    }
    proof {
        lemma_m_view(m);
        assert(m@[0].0@ == "public_token"@);
        assert(m@[0].1@ == AttrV::S(t0@.public_token));
        if t0@.moderator_token is Some {
            assert(m@[1].1@ == AttrV::S(t0@.moderator_token->0));
        }
        assert(entries_view(m@) =~= encoded_tokens(t0@)->M_0);
        assert(AttrV::M(entries_view(m@)) == encoded_tokens(t0@));
    }
    AttributeValue::M(m)
}

fn data_to_attributes(d: EventData) -> (r: AttributeValue)
    ensures
        r@ == encoded_data(d@),
{
    let ghost d0 = d;
    let EventData { name, description, short_url, long_url, mail } = d;
    let mut m: AttributeMap = Vec::new();
    m.push((String::from_str("name"), AttributeValue::S(name)));
    m.push((String::from_str("description"), AttributeValue::S(description)));
    m.push((String::from_str("short_url"), AttributeValue::S(short_url)));
    match long_url {
        Some(u) => m.push((String::from_str("long_url"), AttributeValue::S(u))),
        None => (),
    }
    match mail {
        Some(a) => m.push((String::from_str("mail"), AttributeValue::S(a))),
        None => (),
    }
    proof {
        lemma_m_view(m);
        assert(m@[0].1@ == AttrV::S(d0@.name));
        assert(m@[1].1@ == AttrV::S(d0@.description));
        assert(m@[2].1@ == AttrV::S(d0@.short_url));
        if d0@.long_url is Some {
            assert(m@[3].1@ == AttrV::S(d0@.long_url->0));
            if d0@.mail is Some {
                assert(m@[4].1@ == AttrV::S(d0@.mail->0));
            }
        } else {
            if d0@.mail is Some {
                assert(m@[3].1@ == AttrV::S(d0@.mail->0));
            }
        }
        assert(entries_view(m@) =~= encoded_data(d0@)->M_0);
        assert(AttrV::M(entries_view(m@)) == encoded_data(d0@));
    }
    AttributeValue::M(m)
}

fn question_to_attributes(q: &QuestionItem) -> (r: AttributeValue)
    ensures
        r@ == encoded_question(q@),
{
    let mut m: AttributeMap = Vec::new();
    m.push((String::from_str("id"), AttributeValue::N(i64_to_dec(q.id))));
    m.push((String::from_str("likes"), AttributeValue::N(i64_to_dec(q.likes as i64))));
    m.push((String::from_str("text"), AttributeValue::S(q.text.clone())));
    m.push((String::from_str("hidden"), AttributeValue::Bool(q.hidden)));
    m.push((String::from_str("answered"), AttributeValue::Bool(q.answered)));
    m.push(
        (String::from_str("create_time_unix"), AttributeValue::N(i64_to_dec(q.create_time_unix))),
    );
    proof {
        lemma_m_view(m);
        assert(m@[0].1@ == AttrV::N(dec_of_int(q@.id)));
        assert(m@[1].1@ == AttrV::N(dec_of_int(q@.likes)));
        assert(m@[2].1@ == AttrV::S(q@.text));
        assert(m@[3].1@ == AttrV::Bool(q@.hidden));
        assert(m@[4].1@ == AttrV::Bool(q@.answered));
        assert(m@[5].1@ == AttrV::N(dec_of_int(q@.create_time_unix)));
        assert(entries_view(m@) =~= encoded_question(q@)->M_0);
        assert(AttrV::M(entries_view(m@)) == encoded_question(q@));
    }
    AttributeValue::M(m)
}

fn state_to_attributes(s: EventState) -> (r: AttributeValue)
    ensures
        r@ == encoded_state(s),
{
    let code: u64 = match s.state {
        States::Open => 0,
        States::VotingOnly => 1,
        States::Closed => 2,
    };
    let mut m: AttributeMap = Vec::new();
    m.push((String::from_str("state"), AttributeValue::N(u64_to_dec(code))));
    proof {
        lemma_m_view(m);
        assert(m@.len() == 1);
        assert(m@[0].0@ == "state"@);
        assert(m@[0].1@ == AttrV::N(dec_of_nat(state_code(s.state))));
        assert(entries_view(m@) =~= seq![("state"@, AttrV::N(dec_of_nat(state_code(s.state))))]);
    }
    AttributeValue::M(m)
}

fn event_to_attributes(e: ApiEventInfo) -> (r: AttributeValue)
    ensures
        r@ == encoded_event(e@),
{
    let ghost e0 = e;
    let ApiEventInfo {
        tokens,
        data,
        create_time_unix,
        delete_time_unix,
        deleted,
        last_edit_unix,
        questions,
        state,
        premium_order,
    } = e;
    let mut m: AttributeMap = Vec::new();
    m.push((String::from_str("tokens"), tokens_to_attributes(tokens)));
    m.push((String::from_str("data"), data_to_attributes(data)));
    m.push((String::from_str("createTimeUnix"), AttributeValue::N(i64_to_dec(create_time_unix))));
    m.push((String::from_str("deleteTimeUnix"), AttributeValue::N(i64_to_dec(delete_time_unix))));
    m.push((String::from_str("deleted"), AttributeValue::Bool(deleted)));
    m.push((String::from_str("lastEditUnix"), AttributeValue::N(i64_to_dec(last_edit_unix))));
    let mut qs: Vec<AttributeValue> = Vec::new();
    let mut i: usize = 0;
    while i < questions.len()
        invariant
            0 <= i <= questions@.len(),
            qs@.len() == i,
            forall|j: int|
                0 <= j < i ==> (#[trigger] qs@[j])@ == encoded_question(questions@[j]@),
        decreases questions@.len() - i,
    {
        let qa = question_to_attributes(&questions[i]);
        qs.push(qa);
        i = i + 1;
    }
    proof {
        lemma_l_view(qs);
        assert forall|j: int| 0 <= j < qs@.len() implies list_view(qs@)[j] == encoded_questions(
            e0@.questions,
        )[j] by {
            assert(qs@[j]@ == encoded_question(questions@[j]@));
            assert(e0@.questions[j] == questions@[j]@);
        }
        assert(list_view(qs@) =~= encoded_questions(e0@.questions));
    }
    m.push((String::from_str("questions"), AttributeValue::L(qs)));
    m.push((String::from_str("state"), state_to_attributes(state)));
    match premium_order {
        Some(p) => m.push((String::from_str("premium_order"), AttributeValue::S(p))),
        None => (),
    }
    proof {
        lemma_m_view(m);
        assert(m@[0].1@ == encoded_tokens(e0@.tokens));
        assert(m@[1].1@ == encoded_data(e0@.data));
        assert(m@[2].1@ == AttrV::N(dec_of_int(e0@.create_time_unix)));
        assert(m@[3].1@ == AttrV::N(dec_of_int(e0@.delete_time_unix)));
        assert(m@[4].1@ == AttrV::Bool(e0@.deleted));
        assert(m@[5].1@ == AttrV::N(dec_of_int(e0@.last_edit_unix)));
        assert(m@[6].1@ == AttrV::L(encoded_questions(e0@.questions)));
        assert(m@[7].1@ == encoded_state(e0@.state));
        if e0@.premium_order is Some {
            assert(m@[8].1@ == AttrV::S(e0@.premium_order->0));
        }
        assert(entries_view(m@) =~= encoded_event(e0@)->M_0);
        assert(AttrV::M(entries_view(m@)) == encoded_event(e0@));
    }
    AttributeValue::M(m)
}

impl EventEntry {
    /// Encode this record into the attribute mapping under which it is
    /// persisted.
    pub fn to_attributes(self) -> (r: AttributeMap)
        ensures
            entries_view(r@) == encoded_entry(self@),
    {
        let ghost s0 = self;
        let EventEntry { event, version, ttl } = self;
        let key = event_key(event.tokens.public_token.as_str());
        let mut m: AttributeMap = Vec::new();
        m.push((String::from_str("key"), AttributeValue::S(key)));
        m.push((String::from_str("v"), AttributeValue::N(u64_to_dec(version as u64))));
        m.push((String::from_str("format"), AttributeValue::N(u64_to_dec(CURRENT_FORMAT))));
        m.push((String::from_str("event"), event_to_attributes(event)));
        match ttl {
            Some(t) => m.push((String::from_str("ttl"), AttributeValue::N(i64_to_dec(t)))),
            None => (),
        }
        proof {
            assert(entries_view(m@) =~~= encoded_entry(s0@));
        }
        m
    }
}

/// Decode a full stored item: version first, then the format tag, then the
/// payload container, then the expiry stamp.
pub open spec fn decoded_entry(m: Seq<(Seq<char>, AttrV)>) -> Result<EventEntryV, ErrorV> {
    if decoded_version(m) is Err {
        Err(decoded_version(m)->Err_0)
    } else if !format_ok(m) {
        Err(ErrorV::Malformed("format"@))
    } else {
        let event_r = match spec_lookup(m, "event"@) {
            Some(e) => decoded_event(e),
            None => Err(ErrorV::Malformed("event"@)),
        };
        match event_r {
            Ok(event) => Ok(
                EventEntryV {
                    event,
                    version: decoded_version(m)->Ok_0,
                    ttl: decoded_ttl(m),
                },
            ),
            Err(e) => Err(e),
        }
    }
}

// ---------------------------------------------------------------------------
// Executable decoding.
// ---------------------------------------------------------------------------

/// The views of a vector of question items.
pub open spec fn questions_view(qs: Seq<QuestionItem>) -> Seq<QuestionItemV> {
    Seq::new(qs.len(), |i: int| qs[i]@)
}

fn get_req_str(m: &AttributeMap, key: String) -> (r: Result<String, Error>)
    ensures
        res_view(r) == req_str(entries_view(m@), key@),
{
    match map_get(m, &key) {
        Some(AttributeValue::S(s)) => Ok(s.clone()),
        _ => Err(Error::Malformed(key)),
    }
}

fn get_opt_str(m: &AttributeMap, key: String) -> (r: Result<Option<String>, Error>)
    ensures
        match r {
            Ok(o) => opt_str(entries_view(m@), key@) == Ok::<Option<Seq<char>>, ErrorV>(
                crate::types::opt_str_view(o),
            ),
            Err(e) => opt_str(entries_view(m@), key@) == Err::<Option<Seq<char>>, ErrorV>(e@),
        },
{
    match map_get(m, &key) {
        Some(AttributeValue::S(s)) => Ok(Some(s.clone())),
        Some(_) => Err(Error::Malformed(key)),
        None => Ok(None),
    }
}

fn get_req_bool(m: &AttributeMap, key: String) -> (r: Result<bool, Error>)
    ensures
        match r {
            Ok(b) => req_bool(entries_view(m@), key@) == Ok::<bool, ErrorV>(b),
            Err(e) => req_bool(entries_view(m@), key@) == Err::<bool, ErrorV>(e@),
        },
{
    match map_get(m, &key) {
        Some(AttributeValue::Bool(b)) => Ok(*b),
        _ => Err(Error::Malformed(key)),
    }
}

fn get_req_i64(m: &AttributeMap, key: String) -> (r: Result<i64, Error>)
    ensures
        match r {
            Ok(x) => req_i64(entries_view(m@), key@) == Ok::<int, ErrorV>(x as int),
            Err(e) => req_i64(entries_view(m@), key@) == Err::<int, ErrorV>(e@),
        },
{
    match map_get(m, &key) {
        Some(AttributeValue::N(s)) => match parse_i64_dec(s.as_str()) {
            Some(x) => Ok(x),
            None => Err(Error::Malformed(key)),
        },
        _ => Err(Error::Malformed(key)),
    }
}

fn decode_tokens(v: &AttributeValue) -> (r: Result<EventTokens, Error>)
    ensures
        res_view(r) == decoded_tokens(v@),
{
    match v {
        AttributeValue::M(es) => {
            proof {
                lemma_m_view(*es);
            }
            let public_token = match get_req_str(es, String::from_str("public_token")) {
                Ok(s) => s,
                Err(e) => {
                    return Err(e);
                },
            };
            let moderator_token = match get_opt_str(es, String::from_str("moderator_token")) {
                Ok(o) => o,
                Err(e) => {
                    return Err(e);
                },
            };
            Ok(EventTokens { public_token, moderator_token })
        },
        _ => Err(Error::Malformed(String::from_str("tokens"))),
    }
}

fn decode_data(v: &AttributeValue) -> (r: Result<EventData, Error>)
    ensures
        res_view(r) == decoded_data(v@),
{
    match v {
        AttributeValue::M(es) => {
            proof {
                lemma_m_view(*es);
            }
            let name = match get_req_str(es, String::from_str("name")) {
                Ok(s) => s,
                Err(e) => {
                    return Err(e);
                },
            };
            let description = match get_req_str(es, String::from_str("description")) {
                Ok(s) => s,
                Err(e) => {
                    return Err(e);
                },
            };
            let short_url = match get_req_str(es, String::from_str("short_url")) {
                Ok(s) => s,
                Err(e) => {
                    return Err(e);
                },
            };
            let long_url = match get_opt_str(es, String::from_str("long_url")) {
                Ok(o) => o,
                Err(e) => {
                    return Err(e);
                },
            };
            let mail = match get_opt_str(es, String::from_str("mail")) {
                Ok(o) => o,
                Err(e) => {
                    return Err(e);
                },
            };
            Ok(EventData { name, description, short_url, long_url, mail })
        },
        _ => Err(Error::Malformed(String::from_str("data"))),
    }
}

fn decode_question(v: &AttributeValue) -> (r: Result<QuestionItem, Error>)
    ensures
        res_view(r) == decoded_question(v@),
{
    match v {
        AttributeValue::M(es) => {
            proof {
                lemma_m_view(*es);
            }
            let id = match get_req_i64(es, String::from_str("id")) {
                Ok(x) => x,
                Err(e) => {
                    return Err(e);
                },
            };
            let likes_wide = match get_req_i64(es, String::from_str("likes")) {
                Ok(x) => x,
                Err(e) => {
                    return Err(e);
                },
            };
            if likes_wide < i32::MIN as i64 || likes_wide > i32::MAX as i64 {
                return Err(Error::Malformed(String::from_str("likes")));
            }
            let likes = likes_wide as i32;
            let text = match get_req_str(es, String::from_str("text")) {
                Ok(s) => s,
                Err(e) => {
                    return Err(e);
                },
            };
            let hidden = match get_req_bool(es, String::from_str("hidden")) {
                Ok(b) => b,
                Err(e) => {
                    return Err(e);
                },
            };
            let answered = match get_req_bool(es, String::from_str("answered")) {
                Ok(b) => b,
                Err(e) => {
                    return Err(e);
                },
            };
            let create_time_unix = match get_req_i64(es, String::from_str("create_time_unix")) {
                Ok(x) => x,
                Err(e) => {
                    return Err(e);
                },
            };
            Ok(QuestionItem { id, likes, text, hidden, answered, create_time_unix })
        },
        _ => Err(Error::Malformed(String::from_str("questions"))),
    }
}

fn decode_questions(items: &Vec<AttributeValue>) -> (r: Result<Vec<QuestionItem>, Error>)
    ensures
        match r {
            Ok(qs) => decoded_questions(list_view(items@), 0) == Ok::<Seq<QuestionItemV>, ErrorV>(
                questions_view(qs@),
            ),
            Err(e) => decoded_questions(list_view(items@), 0) == Err::<Seq<QuestionItemV>, ErrorV>(
                e@,
            ),
        },
{
    let ghost itemsv = list_view(items@);
    let mut out: Vec<QuestionItem> = Vec::new();
    let mut i: usize = 0;
    proof {
        assert(questions_view(out@) + decoded_questions(itemsv, 0)->Ok_0 =~= decoded_questions(
            itemsv,
            0,
        )->Ok_0);
    }
    while i < items.len()
        invariant
            0 <= i <= items@.len(),
            itemsv == list_view(items@),
            itemsv.len() == items@.len(),
            out@.len() == i,
            decoded_questions(itemsv, 0) == (match decoded_questions(itemsv, i as int) {
                Ok(rest) => Ok::<Seq<QuestionItemV>, ErrorV>(questions_view(out@) + rest),
                Err(e) => Err::<Seq<QuestionItemV>, ErrorV>(e),
            }),
        decreases items@.len() - i,
    {
        proof {
            assert(itemsv[i as int] == items@[i as int]@);
        }
        match decode_question(&items[i]) {
            Ok(q) => {
                let ghost old_out = out@;
                out.push(q);
                proof {
                    assert(questions_view(out@) =~= questions_view(old_out).push(q@));
                    if decoded_questions(itemsv, i as int + 1) is Ok {
                        let rest = decoded_questions(itemsv, i as int + 1)->Ok_0;
                        assert(decoded_questions(itemsv, i as int) == Ok::<
                            Seq<QuestionItemV>,
                            ErrorV,
                        >(seq![q@] + rest));
                        assert(questions_view(old_out) + (seq![q@] + rest) =~= questions_view(out@)
                            + rest);
                    }
                }
                i = i + 1;
            },
            Err(e) => {
                proof {
                    assert(decoded_questions(itemsv, i as int) == Err::<
                        Seq<QuestionItemV>,
                        ErrorV,
                    >(e@));
                }
                return Err(e);
            },
        }
    }
    proof {
        assert(decoded_questions(itemsv, i as int) == Ok::<Seq<QuestionItemV>, ErrorV>(
            Seq::empty(),
        ));
        assert(questions_view(out@) + Seq::<QuestionItemV>::empty() =~= questions_view(out@));
    }
    Ok(out)
}

fn decode_state(v: &AttributeValue) -> (r: Result<EventState, Error>)
    ensures
        res_view(r) == decoded_state(v@),
{
    match v {
        AttributeValue::M(es) => {
            proof {
                lemma_m_view(*es);
            }
            match get_req_i64(es, String::from_str("state")) {
                Ok(c) => {
                    if c == 0 {
                        Ok(EventState { state: States::Open })
                    } else if c == 1 {
                        Ok(EventState { state: States::VotingOnly })
                    } else if c == 2 {
                        Ok(EventState { state: States::Closed })
                    } else {
                        Err(Error::Malformed(String::from_str("state")))
                    }
                },
                Err(e) => Err(e),
            }
        },
        _ => Err(Error::Malformed(String::from_str("state"))),
    }
}

fn decode_event(v: &AttributeValue) -> (r: Result<ApiEventInfo, Error>)
    ensures
        res_view(r) == decoded_event(v@),
{
    match v {
        AttributeValue::M(es) => {
            proof {
                lemma_m_view(*es);
            }
            let tokens = match map_get(es, &String::from_str("tokens")) {
                Some(t) => match decode_tokens(t) {
                    Ok(x) => x,
                    Err(e) => {
                        return Err(e);
                    },
                },
                None => {
                    return Err(Error::Malformed(String::from_str("tokens")));
                },
            };
            let data = match map_get(es, &String::from_str("data")) {
                Some(d) => match decode_data(d) {
                    Ok(x) => x,
                    Err(e) => {
                        return Err(e);
                    },
                },
                None => {
                    return Err(Error::Malformed(String::from_str("data")));
                },
            };
            let create_time_unix = match get_req_i64(es, String::from_str("createTimeUnix")) {
                Ok(x) => x,
                Err(e) => {
                    return Err(e);
                },
            };
            let delete_time_unix = match get_req_i64(es, String::from_str("deleteTimeUnix")) {
                Ok(x) => x,
                Err(e) => {
                    return Err(e);
                },
            };
            let deleted = match get_req_bool(es, String::from_str("deleted")) {
                Ok(b) => b,
                Err(e) => {
                    return Err(e);
                },
            };
            let last_edit_unix = match get_req_i64(es, String::from_str("lastEditUnix")) {
                Ok(x) => x,
                Err(e) => {
                    return Err(e);
                },
            };
            let questions = match map_get(es, &String::from_str("questions")) {
                Some(qv) => match qv {
                    AttributeValue::L(items) => {
                        proof {
                            lemma_l_view(*items);
                        }
                        match decode_questions(items) {
                            Ok(x) => x,
                            Err(e) => {
                                return Err(e);
                            },
                        }
                    },
                    _ => {
                        return Err(Error::Malformed(String::from_str("questions")));
                    },
                },
                None => {
                    return Err(Error::Malformed(String::from_str("questions")));
                },
            };
            let state = match map_get(es, &String::from_str("state")) {
                Some(s) => match decode_state(s) {
                    Ok(x) => x,
                    Err(e) => {
                        return Err(e);
                    },
                },
                None => {
                    return Err(Error::Malformed(String::from_str("state")));
                },
            };
            let premium_order = match get_opt_str(es, String::from_str("premium_order")) {
                Ok(o) => o,
                Err(e) => {
                    return Err(e);
                },
            };
            let result = ApiEventInfo {
                tokens,
                data,
                create_time_unix,
                delete_time_unix,
                deleted,
                last_edit_unix,
                questions,
                state,
                premium_order,
            };
            proof {
                assert(decoded_event(v@) is Ok);
                assert(decoded_event(v@)->Ok_0 =~~= result@);
            }
            Ok(result)
        },
        _ => Err(Error::Malformed(String::from_str("event"))),
    }
}

fn get_version(m: &AttributeMap) -> (r: Result<usize, Error>)
    ensures
        match r {
            Ok(x) => decoded_version(entries_view(m@)) == Ok::<int, ErrorV>(x as int),
            Err(e) => decoded_version(entries_view(m@)) == Err::<int, ErrorV>(e@),
        },
{
    match map_get(m, &String::from_str("v")) {
        Some(AttributeValue::N(s)) => match parse_u64_dec(s.as_str()) {
            Some(x) => {
                if x <= usize::MAX as u64 {
                    Ok(x as usize)
                } else {
                    Err(Error::Malformed(String::from_str("v")))
                }
            },
            None => Err(Error::Malformed(String::from_str("v"))),
        },
        _ => Err(Error::Malformed(String::from_str("v"))),
    }
}

fn check_format(m: &AttributeMap) -> (r: bool)
    ensures
        r == format_ok(entries_view(m@)),
{
    match map_get(m, &String::from_str("format")) {
        Some(AttributeValue::N(s)) => match parse_u64_dec(s.as_str()) {
            Some(x) => x == CURRENT_FORMAT,
            None => false,
        },
        _ => false,
    }
}

fn get_ttl(m: &AttributeMap) -> (r: Option<i64>)
    ensures
        match r {
            Some(t) => decoded_ttl(entries_view(m@)) == Some(t as int),
            None => decoded_ttl(entries_view(m@)) is None,
        },
{
    match map_get(m, &String::from_str("ttl")) {
        Some(AttributeValue::N(s)) => parse_i64_dec(s.as_str()),
        _ => None,
    }
}

impl EventEntry {
    /// Decode a stored attribute mapping back into a record. Fails with a
    /// malformed-field error naming the offending field when a required field
    /// is missing, mistyped, or fails to parse, and when the format tag is
    /// not the single known format.
    pub fn try_from_attributes(m: &AttributeMap) -> (r: Result<EventEntry, Error>)
        ensures
            res_view(r) == decoded_entry(entries_view(m@)),
    {
        let version = match get_version(m) {
            Ok(x) => x,
            Err(e) => {
                return Err(e);
            },
        };
        if !check_format(m) {
            return Err(Error::Malformed(String::from_str("format")));
        }
        let event = match map_get(m, &String::from_str("event")) {
            Some(ev) => match decode_event(ev) {
                Ok(x) => x,
                Err(e) => {
                    return Err(e);
                },
            },
            None => {
                return Err(Error::Malformed(String::from_str("event")));
            },
        };
        let ttl = get_ttl(m);
        let r = EventEntry { event, version, ttl };
        proof {
            assert(decoded_entry(entries_view(m@)) is Ok);
            assert(decoded_entry(entries_view(m@))->Ok_0 =~~= r@);
        }
        Ok(r)
    }
}

// ---------------------------------------------------------------------------
// The round-trip law.
// ---------------------------------------------------------------------------

pub proof fn lemma_tokens_round_trip(t: EventTokensV)
    ensures
        decoded_tokens(encoded_tokens(t)) == Ok::<EventTokensV, ErrorV>(t),
{
    reveal_strlit("public_token");
    reveal_strlit("moderator_token");
    assert("public_token"@.len() == 12);
    assert("public_token"@ != "moderator_token"@);
    let es = encoded_tokens(t)->M_0;
    assert(es[0].0 == "public_token"@);
    lemma_lookup_first_match(es, "public_token"@, 0);
    if t.moderator_token is Some {
        lemma_lookup_first_match(es, "moderator_token"@, 1);
    } else {
        lemma_lookup_absent(es, "moderator_token"@);
    }
    assert(decoded_tokens(encoded_tokens(t)) is Ok);
    assert(decoded_tokens(encoded_tokens(t))->Ok_0 =~~= t);
}

pub proof fn lemma_data_round_trip(d: EventDataV)
    ensures
        decoded_data(encoded_data(d)) == Ok::<EventDataV, ErrorV>(d),
{
    reveal_strlit("name");
    reveal_strlit("description");
    reveal_strlit("short_url");
    reveal_strlit("long_url");
    reveal_strlit("mail");
    assert("name"@[0] == 'n');
    assert("mail"@[0] == 'm');
    assert("name"@ != "mail"@);
    let es = encoded_data(d)->M_0;
    assert(es[0].0 == "name"@);
    assert(es[1].0 == "description"@);
    assert(es[2].0 == "short_url"@);
    if d.long_url is Some {
        assert(es[3].0 == "long_url"@);
        if d.mail is Some {
            assert(es[4].0 == "mail"@);
        }
    } else {
        if d.mail is Some {
            assert(es[3].0 == "mail"@);
        }
    }
    lemma_lookup_first_match(es, "name"@, 0);
    lemma_lookup_first_match(es, "description"@, 1);
    lemma_lookup_first_match(es, "short_url"@, 2);
    if d.long_url is Some {
        lemma_lookup_first_match(es, "long_url"@, 3);
        if d.mail is Some {
            lemma_lookup_first_match(es, "mail"@, 4);
        } else {
            lemma_lookup_absent(es, "mail"@);
        }
    } else {
        lemma_lookup_absent(es, "long_url"@);
        if d.mail is Some {
            lemma_lookup_first_match(es, "mail"@, 3);
        } else {
            lemma_lookup_absent(es, "mail"@);
        }
    }
    assert(decoded_data(encoded_data(d)) is Ok);
    assert(decoded_data(encoded_data(d))->Ok_0 =~~= d);
}

pub proof fn lemma_question_round_trip(q: QuestionItemV)
    requires
        q.wf(),
    ensures
        decoded_question(encoded_question(q)) == Ok::<QuestionItemV, ErrorV>(q),
{
    reveal_strlit("id");
    reveal_strlit("likes");
    reveal_strlit("text");
    reveal_strlit("hidden");
    reveal_strlit("answered");
    reveal_strlit("create_time_unix");
    let es = encoded_question(q)->M_0;
    assert(es[0].0 == "id"@);
    assert(es[1].0 == "likes"@);
    assert(es[2].0 == "text"@);
    assert(es[3].0 == "hidden"@);
    assert(es[4].0 == "answered"@);
    assert(es[5].0 == "create_time_unix"@);
    lemma_lookup_first_match(es, "id"@, 0);
    lemma_lookup_first_match(es, "likes"@, 1);
    lemma_lookup_first_match(es, "text"@, 2);
    lemma_lookup_first_match(es, "hidden"@, 3);
    lemma_lookup_first_match(es, "answered"@, 4);
    lemma_lookup_first_match(es, "create_time_unix"@, 5);
    crate::num::lemma_signed_dec_round_trip(q.id);
    crate::num::lemma_signed_dec_round_trip(q.likes);
    crate::num::lemma_signed_dec_round_trip(q.create_time_unix);
    assert(decoded_question(encoded_question(q)) is Ok);
    assert(decoded_question(encoded_question(q))->Ok_0 =~~= q);
}

pub proof fn lemma_state_round_trip(s: EventState)
    ensures
        decoded_state(encoded_state(s)) == Ok::<EventState, ErrorV>(s),
{
    reveal_strlit("state");
    let es = encoded_state(s)->M_0;
    lemma_lookup_first_match(es, "state"@, 0);
    let code = state_code(s.state);
    crate::num::lemma_signed_dec_round_trip(code as int);
    assert(decoded_state(encoded_state(s)) is Ok);
}

pub proof fn lemma_questions_round_trip(qs: Seq<QuestionItemV>, i: int)
    requires
        0 <= i <= qs.len(),
        forall|j: int| 0 <= j < qs.len() ==> (#[trigger] qs[j]).wf(),
    ensures
        decoded_questions(encoded_questions(qs), i) == Ok::<Seq<QuestionItemV>, ErrorV>(
            qs.skip(i),
        ),
    decreases qs.len() - i,
{
    let enc = encoded_questions(qs);
    if i == qs.len() {
        assert(qs.skip(i) =~= Seq::<QuestionItemV>::empty());
    } else {
        assert(enc[i] == encoded_question(qs[i]));
        lemma_question_round_trip(qs[i]);
        lemma_questions_round_trip(qs, i + 1);
        assert(seq![qs[i]] + qs.skip(i + 1) =~= qs.skip(i));
    }
}

#[verifier::rlimit(50)]
pub proof fn lemma_event_round_trip(e: ApiEventInfoV)
    requires
        e.wf(),
    ensures
        decoded_event(encoded_event(e)) == Ok::<ApiEventInfoV, ErrorV>(e),
{
    reveal_strlit("tokens");
    reveal_strlit("data");
    reveal_strlit("createTimeUnix");
    reveal_strlit("deleteTimeUnix");
    reveal_strlit("deleted");
    reveal_strlit("lastEditUnix");
    reveal_strlit("questions");
    reveal_strlit("state");
    reveal_strlit("premium_order");
    assert("createTimeUnix"@[0] == 'c');
    assert("deleteTimeUnix"@[0] == 'd');
    assert("createTimeUnix"@ != "deleteTimeUnix"@);
    let es = encoded_event(e)->M_0;
    assert(es[0].0 == "tokens"@);
    assert(es[1].0 == "data"@);
    assert(es[2].0 == "createTimeUnix"@);
    assert(es[3].0 == "deleteTimeUnix"@);
    assert(es[4].0 == "deleted"@);
    assert(es[5].0 == "lastEditUnix"@);
    assert(es[6].0 == "questions"@);
    assert(es[7].0 == "state"@);
    if e.premium_order is Some {
        assert(es[8].0 == "premium_order"@);
    }
    lemma_lookup_first_match(es, "tokens"@, 0);
    lemma_lookup_first_match(es, "data"@, 1);
    lemma_lookup_first_match(es, "createTimeUnix"@, 2);
    lemma_lookup_first_match(es, "deleteTimeUnix"@, 3);
    lemma_lookup_first_match(es, "deleted"@, 4);
    lemma_lookup_first_match(es, "lastEditUnix"@, 5);
    lemma_lookup_first_match(es, "questions"@, 6);
    lemma_lookup_first_match(es, "state"@, 7);
    if e.premium_order is Some {
        lemma_lookup_first_match(es, "premium_order"@, 8);
    } else {
        lemma_lookup_absent(es, "premium_order"@);
    }
    lemma_tokens_round_trip(e.tokens);
    lemma_data_round_trip(e.data);
    lemma_state_round_trip(e.state);
    lemma_questions_round_trip(e.questions, 0);
    assert(e.questions.skip(0) =~= e.questions);
    crate::num::lemma_signed_dec_round_trip(e.create_time_unix);
    crate::num::lemma_signed_dec_round_trip(e.delete_time_unix);
    crate::num::lemma_signed_dec_round_trip(e.last_edit_unix);
    assert(decoded_event(encoded_event(e)) is Ok);
    assert(decoded_event(encoded_event(e))->Ok_0 =~~= e);
}

/// Round-trip law: decoding an encoded record gives the record back, for
/// every record whose numeric fields fit their machine types — including
/// records with all optional fields absent and all optional fields present.
#[verifier::rlimit(50)]
pub proof fn lemma_entry_round_trip(e: EventEntryV)
    requires
        e.wf(),
    ensures
        decoded_entry(encoded_entry(e)) == Ok::<EventEntryV, ErrorV>(e),
{
    reveal_strlit("key");
    reveal_strlit("v");
    reveal_strlit("format");
    reveal_strlit("event");
    reveal_strlit("ttl");
    assert("key"@[0] == 'k');
    assert("ttl"@[0] == 't');
    assert("key"@ != "ttl"@);
    let m = encoded_entry(e);
    assert(m[0].0 == "key"@);
    assert(m[1].0 == "v"@);
    assert(m[2].0 == "format"@);
    assert(m[3].0 == "event"@);
    if e.ttl is Some {
        assert(m[4].0 == "ttl"@);
    }
    lemma_lookup_first_match(m, "v"@, 1);
    lemma_lookup_first_match(m, "format"@, 2);
    lemma_lookup_first_match(m, "event"@, 3);
    crate::num::lemma_dec_of_nat_digits(e.version as nat);
    crate::num::lemma_dec_of_nat_value(e.version as nat);
    crate::num::lemma_dec_of_nat_digits(CURRENT_FORMAT as nat);
    crate::num::lemma_dec_of_nat_value(CURRENT_FORMAT as nat);
    lemma_event_round_trip(e.event);
    if e.ttl is Some {
        lemma_lookup_first_match(m, "ttl"@, 4);
        crate::num::lemma_signed_dec_round_trip(e.ttl->0);
    } else {
        lemma_lookup_absent(m, "ttl"@);
    }
    assert(decoded_entry(m) is Ok);
    assert(decoded_entry(m)->Ok_0 =~~= e);
}

/// The encoded record stores its version's decimal text under the version
/// field: what the write guard of the store compares against.
pub proof fn lemma_encoded_version(e: EventEntryV)
    ensures
        spec_lookup(encoded_entry(e), "v"@) == Some(AttrV::N(dec_of_nat(e.version as nat))),
{
    reveal_strlit("key");
    reveal_strlit("v");
    let m = encoded_entry(e);
    assert(m[0].0 == "key"@);
    assert(m[1].0 == "v"@);
    lemma_lookup_first_match(m, "v"@, 1);
}

/// Absent-vs-default: a record without a moderator token decodes back to the
/// absent moderator token, never a placeholder value or a missing-field
/// error.
pub proof fn lemma_absent_moderator_token(e: EventEntryV)
    requires
        e.wf(),
        e.event.tokens.moderator_token is None,
    ensures
        decoded_entry(encoded_entry(e)) == Ok::<EventEntryV, ErrorV>(e),
        (decoded_entry(encoded_entry(e))->Ok_0).event.tokens.moderator_token is None,
{
    lemma_entry_round_trip(e);
}

/// Malformed detection: a stored item whose version field is missing,
/// mistyped, or does not parse as a bounded non-negative integer decodes to
/// a malformed-field error naming the version field — never a silent zero.
pub proof fn lemma_malformed_version(m: Seq<(Seq<char>, AttrV)>)
    requires
        match spec_lookup(m, "v"@) {
            Some(v) => match v {
                AttrV::N(s) => dec_version_of(s) is None,
                _ => true,
            },
            None => true,
        },
    ensures
        decoded_entry(m) == Err::<EventEntryV, ErrorV>(ErrorV::Malformed("v"@)),
{
}

} // verus!
