//! Checking that a TXT record is visible in DNS: query encoding, answer decoding, and
//! the schedule of lookups with doubling waits.
use vstd::prelude::*;
use vstd::arithmetic::power2::{lemma_pow2_strictly_increases, lemma_pow2_unfold, lemma2_to64, pow2};
use vstd::utf8::{decode_utf8, valid_utf8};

use crate::dns::DnsError;

verus! {

#[verifier::external_type_specification]
#[verifier::external_body]
pub struct ExDnsMessage(rustdns::Message);

#[verifier::external_type_specification]
#[verifier::external_body]
pub struct ExDnsArgumentError(rustdns::Error);

#[verifier::external_type_specification]
#[verifier::external_body]
pub struct ExIoError(std::io::Error);

/// Record types this library queries.
pub enum RecordType {
    Txt,
}

/// Record classes this library queries.
pub enum RecordClass {
    Internet,
}

/// The data of one answer record of a DNS response.
pub enum AnswerData {
    /// A TXT record's character strings.
    Txt(Vec<Vec<u8>>),
    /// An SPF record's character strings.
    Spf(Vec<Vec<u8>>),
    /// Any other record.
    Other,
}

/// What an [`AnswerData`] holds.
pub enum AnswerView {
    Txt(Seq<Seq<u8>>),
    Spf(Seq<Seq<u8>>),
    Other,
}

impl View for AnswerData {
    type V = AnswerView;

    open spec fn view(&self) -> AnswerView {
        match self {
            AnswerData::Txt(strings) => AnswerView::Txt(strings.deep_view()),
            AnswerData::Spf(strings) => AnswerView::Spf(strings.deep_view()),
            AnswerData::Other => AnswerView::Other,
        }
    }
}

/// `rustdns::Message::from_slice` of a response, its answer records' data in order.
pub uninterp spec fn dns_response_answers(response: Seq<u8>) -> Option<Seq<AnswerView>>;

/// A question of a DNS message: its name, type code and class code.
pub struct QuestionView {
    pub name: Seq<char>,
    pub record_type: u16,
    pub class: u16,
}

/// The questions a `rustdns::Message` holds, in order.
pub uninterp spec fn message_questions(message: rustdns::Message) -> Seq<QuestionView>;

/// The number of resource records a `rustdns::Message` holds in its answer, authority and
/// additional sections, an EDNS extension counted as one.
pub uninterp spec fn message_record_count(message: rustdns::Message) -> nat;

/// The name `rustdns::Message::try_add_question` stores for a queried domain (its IDNA
/// normalisation, ending with a dot).
pub uninterp spec fn normalised_domain(domain: Seq<char>) -> Seq<char>;

/// Whether `rustdns::Message::try_add_question` accepts a domain: its IDNA processing
/// succeeds and the ASCII form meets the DNS name limits.
pub uninterp spec fn query_name_ok(domain: Seq<char>) -> bool;

/// The wire form `rustdns` writes for a question name (IDNA to ASCII, length-prefixed
/// labels, a zero byte).
pub uninterp spec fn encoded_name(name: Seq<char>) -> Seq<u8>;

/// Type code of a record type.
pub open spec fn record_type_code(t: RecordType) -> u16 {
    match t {
        RecordType::Txt => 16,
    }
}

/// Class code of a record class.
pub open spec fn record_class_code(c: RecordClass) -> u16 {
    match c {
        RecordClass::Internet => 1,
    }
}

/// Big-endian bytes of a 16-bit value.
pub open spec fn be16(v: u16) -> Seq<u8> {
    seq![(v / 256) as u8, (v % 256) as u8]
}

/// `rustdns::Message::default()`: an empty query message. Claimed, as its source shows:
/// no questions and no records. Its id is drawn at random and is not stated.
#[verifier::external_body]
fn message_default() -> (m: rustdns::Message)
    ensures
        message_questions(m) == Seq::<QuestionView>::empty(),
        message_record_count(m) == 0,
{
    rustdns::Message::default()
}

/// `rustdns::Message::try_add_question`. Claimed, as its source shows: it succeeds
/// exactly for the domains that `query_name_ok` names, a check on the domain alone; on
/// success the question with the normalised domain, type and class is appended and
/// nothing else changes; on failure the message is left as it was. Which domains pass
/// the IDNA processing and DNS name limits is left to the name.
#[verifier::external_body]
fn message_add_question(
    message: &mut rustdns::Message,
    domain: &str,
    record_type: RecordType,
    class: RecordClass,
) -> (r: Result<(), rustdns::Error>)
    ensures
        r is Ok <==> query_name_ok(domain@),
        r is Ok ==> message_questions(*final(message)) == message_questions(*old(message)).push(
            QuestionView {
                name: normalised_domain(domain@),
                record_type: record_type_code(record_type),
                class: record_class_code(class),
            },
        ),
        r is Err ==> message_questions(*final(message)) == message_questions(*old(message)),
        message_record_count(*final(message)) == message_record_count(*old(message)),
{
    let record_type = match record_type {
        RecordType::Txt => rustdns::Type::TXT,
    };
    let class = match class {
        RecordClass::Internet => rustdns::Class::Internet,
    };
    message.try_add_question(domain, record_type, class)
}

/// `rustdns::Message::to_vec`. Claimed, as its source shows: a 12-byte header (id, flags,
/// four section counts), then the questions, then the records. For a message with one
/// question and no records, the counts are 1, 0, 0, 0 and the header is followed by the
/// question's encoded name, type and class. Such a message whose question name was stored
/// for an accepted domain always encodes: encoding runs the same IDNA and name checks on
/// it. The id and flags, and the other cases in which encoding fails, are not stated.
#[verifier::external_body]
fn message_to_vec(message: &rustdns::Message) -> (r: Result<Vec<u8>, std::io::Error>)
    ensures
        message_questions(*message).len() == 1 && message_record_count(*message) == 0
            && (exists|d: Seq<char>| #[trigger] normalised_domain(d) == message_questions(*message)[0].name
                && query_name_ok(d)) ==> r is Ok,
        r matches Ok(bytes) ==> bytes@.len() >= 12,
        r matches Ok(bytes) ==> (message_questions(*message).len() == 1 && message_record_count(*message) == 0
            ==> {
            let q = message_questions(*message)[0];
            &&& bytes@.subrange(4, 12) == seq![0u8, 1, 0, 0, 0, 0, 0, 0]
            &&& bytes@.skip(12) == encoded_name(q.name) + be16(q.record_type) + be16(q.class)
        }),
{
    message.to_vec()
}

/// `rustdns::Message::from_slice`, keeping the data of each answer record in order.
/// Claimed: the outcome is determined by the response bytes.
#[verifier::external_body]
fn message_answers(response: &[u8]) -> (r: Result<Vec<AnswerData>, std::io::Error>)
    ensures
        r is Ok <==> dns_response_answers(response@) is Some,
        r matches Ok(answers) ==> answers@.map_values(|a: AnswerData| a@)
            == dns_response_answers(response@).unwrap(),
{
    let message = rustdns::Message::from_slice(response)?;
    Ok(message.answers.into_iter().map(|record| match record.resource {
        rustdns::Resource::TXT(txt) => AnswerData::Txt(txt.0),
        rustdns::Resource::SPF(txt) => AnswerData::Spf(txt.0),
        _ => AnswerData::Other,
    }).collect())
}

/// `std::str::from_utf8`, copied into a `String`: `Some` exactly for valid UTF-8, which
/// is then decoded.
#[verifier::external_body]
fn utf8_string(bytes: &[u8]) -> (r: Option<String>)
    ensures
        r is Some <==> valid_utf8(bytes@),
        r matches Some(s) ==> s@ == decode_utf8(bytes@),
{
    std::str::from_utf8(bytes).ok().map(|s| s.to_string())
}

/// The strings among `strings` that are valid UTF-8, decoded, in order.
pub open spec fn utf8_strings(strings: Seq<Seq<u8>>) -> Seq<Seq<char>>
    decreases strings.len(),
{
    if strings.len() == 0 {
        seq![]
    } else {
        let rest = utf8_strings(strings.drop_last());
        if valid_utf8(strings.last()) {
            rest.push(decode_utf8(strings.last()))
        } else {
            rest
        }
    }
}

/// The text of the TXT records among `answers`: each of their character strings that is
/// valid UTF-8, in order.
pub open spec fn txt_values(answers: Seq<AnswerView>) -> Seq<Seq<char>>
    decreases answers.len(),
{
    if answers.len() == 0 {
        seq![]
    } else {
        let rest = txt_values(answers.drop_last());
        match answers.last() {
            AnswerView::Txt(strings) => rest + utf8_strings(strings),
            _ => rest,
        }
    }
}

/// The DNS query message asking for the TXT records of `domain`, class IN: a header with
/// a random id, one question and no records, then the question. It is built for every
/// domain that `rustdns` accepts.
pub fn txt_query(domain: &str) -> (r: Result<Vec<u8>, DnsError>)
    ensures
        r is Ok <==> query_name_ok(domain@),
        r matches Err(e) ==> e is InvalidQueryDomain,
        r matches Ok(bytes) ==> {
            &&& bytes@.len() >= 12
            &&& bytes@.subrange(4, 12) == seq![0u8, 1, 0, 0, 0, 0, 0, 0]
            &&& bytes@.skip(12) == encoded_name(normalised_domain(domain@)) + seq![0u8, 16, 0, 1]
        },
{
    let mut message = message_default();
    match message_add_question(&mut message, domain, RecordType::Txt, RecordClass::Internet) {
        Ok(()) => {},
        Err(_) => return Err(DnsError::InvalidQueryDomain),
    }
    match message_to_vec(&message) {
        Ok(bytes) => Ok(bytes),
        Err(_) => Err(DnsError::QueryEncoding),
    }
}

/// The decoded strings of the TXT records of `answers`.
pub fn answers_txt_values(answers: &Vec<AnswerData>) -> (r: Vec<String>)
    ensures
        r.deep_view() == txt_values(answers@.map_values(|a: AnswerData| a@)),
{
    let ghost views = answers@.map_values(|a: AnswerData| a@);
    let mut r: Vec<String> = Vec::new();
    let mut i: usize = 0;
    assert(views.take(0) =~= Seq::<AnswerView>::empty());
    while i < answers.len()
        invariant
            views == answers@.map_values(|a: AnswerData| a@),
            i <= answers@.len(),
            r.deep_view() == txt_values(views.take(i as int)),
        decreases answers@.len() - i,
    {
        assert(views.take(i + 1).drop_last() =~= views.take(i as int));
        assert(views.take(i + 1).last() == answers@[i as int]@);
        match &answers[i] {
            AnswerData::Txt(strings) => {
                let ghost before = r.deep_view();
                let ghost sv = strings.deep_view();
                let mut j: usize = 0;
                assert(sv.take(0) =~= Seq::<Seq<u8>>::empty());
                assert(before + utf8_strings(sv.take(0)) =~= before);
                while j < strings.len()
                    invariant
                        sv == strings.deep_view(),
                        j <= sv.len(),
                        r.deep_view() == before + utf8_strings(sv.take(j as int)),
                    decreases sv.len() - j,
                {
                    assert(sv.take(j + 1).drop_last() =~= sv.take(j as int));
                    assert(sv.take(j + 1).last() == strings[j as int]@);
                    let decoded = utf8_string(strings[j].as_slice());
                    match decoded {
                        Some(s) => {
                            let ghost mid = r.deep_view();
                            r.push(s);
                            assert(r.deep_view() =~= mid.push(s@));
                            assert(before + utf8_strings(sv.take(j + 1)) =~= (before + utf8_strings(sv.take(j as int))).push(s@));
                        },
                        None => {},
                    }
                    j = j + 1;
                }
                assert(sv.take(sv.len() as int) =~= sv);
            },
            _ => {},
        }
        i = i + 1;
    }
    assert(views.take(answers@.len() as int) =~= views);
    r
}

/// The decoded strings of the TXT records in the DNS response `response`.
pub fn response_txt_values(response: &[u8]) -> (r: Result<Vec<String>, DnsError>)
    ensures
        match dns_response_answers(response@) {
            Some(answers) => r matches Ok(values) && values.deep_view() == txt_values(answers),
            None => r == Err::<Vec<String>, DnsError>(DnsError::ResponseDecoding),
        },
{
    match message_answers(response) {
        Ok(answers) => Ok(answers_txt_values(&answers)),
        Err(_) => Err(DnsError::ResponseDecoding),
    }
}

/// Whether some of `records` is exactly `value`.
pub fn contains_value(records: &Vec<String>, value: &str) -> (r: bool)
    ensures
        r == records.deep_view().contains(value@),
{
    let wanted = value.to_owned();
    let mut i: usize = 0;
    while i < records.len()
        invariant
            wanted@ == value@,
            i <= records@.len(),
            forall|j: int| 0 <= j < i ==> records@[j]@ != value@,
        decreases records@.len() - i,
    {
        if records[i] == wanted {
            assert(records.deep_view()[i as int] == value@);
            assert(records.deep_view().contains(value@));
            return true;
        }
        i = i + 1;
    }
    assert forall|j: int| 0 <= j < records.deep_view().len() implies records.deep_view()[j] != value@ by {
        assert(records.deep_view()[j] == records@[j]@);
    }
    false
}

/// The schedule of lookups that waits for a TXT record to appear: before each lookup it
/// waits `wait_secs` seconds; after a lookup that misses the record, with `retries` left,
/// it doubles the wait, and with none left it gives up.
pub struct TxtCheck {
    /// Lookups still allowed after the next one.
    pub retries: usize,
    /// Seconds to wait before the next lookup.
    pub wait_secs: u64,
}

/// What to do after a lookup.
#[derive(Debug, PartialEq, Eq, Structural)]
pub enum TxtCheckStep {
    /// The record is visible: the check succeeds.
    Found,
    /// The record was not seen and no lookup is left: the check fails.
    NotFound,
    /// Wait this many seconds, then look up again.
    Wait { secs: u64 },
}

/// The schedule at its start, allowing `retries` lookups after the first.
pub open spec fn txt_check_start(retries: nat) -> TxtCheck {
    TxtCheck { retries: retries as usize, wait_secs: 1 }
}

/// The schedule after a lookup that did (`found`) or did not see the record, and the
/// step taken.
pub open spec fn txt_check_next(s: TxtCheck, found: bool) -> (TxtCheck, TxtCheckStep) {
    if found {
        (s, TxtCheckStep::Found)
    } else if s.retries == 0 {
        (s, TxtCheckStep::NotFound)
    } else {
        let n = TxtCheck { retries: (s.retries - 1) as usize, wait_secs: (s.wait_secs * 2) as u64 };
        (n, TxtCheckStep::Wait { secs: n.wait_secs })
    }
}

/// The schedule after `k` lookups that all missed the record, without giving up.
pub open spec fn txt_check_after_misses(s: TxtCheck, k: nat) -> TxtCheck
    decreases k,
{
    if k == 0 {
        s
    } else {
        txt_check_next(txt_check_after_misses(s, (k - 1) as nat), false).0
    }
}

impl TxtCheck {
    /// A wait is at least one second.
    pub open spec fn wf(&self) -> bool {
        1 <= self.wait_secs
    }

    /// Whether a miss now would call for a wait beyond the range of `u64` seconds: the
    /// doubling of the wait that a miss with lookups left calls for overflows.
    pub open spec fn wait_overflows_on_miss(&self) -> bool {
        self.retries > 0 && self.wait_secs > u64::MAX / 2
    }

    /// A schedule that waits one second before its first lookup and allows `retries`
    /// more lookups; each further wait doubles the last one.
    pub fn new(retries: usize) -> (r: TxtCheck)
        ensures
            r == txt_check_start(retries as nat),
            r.wf(),
    {
        TxtCheck { retries, wait_secs: 1 }
    }

    /// Takes the outcome of a lookup that returned `records` while waiting for `value`.
    /// A miss whose doubled wait would not fit in `u64` seconds is left out: the wait
    /// cannot be represented there.
    pub fn observe(&mut self, records: &Vec<String>, value: &str) -> (step: TxtCheckStep)
        requires
            old(self).wf(),
            !records.deep_view().contains(value@) ==> !old(self).wait_overflows_on_miss(),
        ensures
            final(self).wf(),
            (*final(self), step) == txt_check_next(*old(self), records.deep_view().contains(value@)),
    {
        if contains_value(records, value) {
            return TxtCheckStep::Found;
        }
        if self.retries == 0 {
            return TxtCheckStep::NotFound;
        }
        self.retries = self.retries - 1;
        self.wait_secs = self.wait_secs * 2;
        TxtCheckStep::Wait { secs: self.wait_secs }
    }
}

/// Waiting for a TXT record never looks it up more than `retries + 1` times, whatever
/// `retries` is: after `k` misses (`k <= retries`, `k <= 63`) the next wait is `2^k`
/// seconds with `retries - k` lookups left after the next one; a further miss waits
/// `2^(k+1)` seconds, or gives up when no lookup is left. Only after 63 misses with
/// lookups still left would the next wait, `2^64` seconds, not fit in `u64` seconds.
pub proof fn lemma_txt_check_schedule(retries: nat, k: nat)
    requires
        retries <= usize::MAX,
        k <= retries,
        k <= 63,
    ensures
        txt_check_after_misses(txt_check_start(retries), k)
            == (TxtCheck { retries: (retries - k) as usize, wait_secs: pow2(k) as u64 }),
        txt_check_after_misses(txt_check_start(retries), k).wf(),
        k < retries && k < 63 ==> !txt_check_after_misses(txt_check_start(retries), k).wait_overflows_on_miss(),
        k < retries && k < 63 ==> txt_check_next(txt_check_after_misses(txt_check_start(retries), k), false).1
            == (TxtCheckStep::Wait { secs: pow2(k + 1) as u64 }),
        k == retries ==> txt_check_next(txt_check_after_misses(txt_check_start(retries), k), false).1
            == TxtCheckStep::NotFound,
        k == 63 && k < retries ==> txt_check_after_misses(txt_check_start(retries), k).wait_overflows_on_miss(),
    decreases k,
{
    lemma2_to64();
    vstd::arithmetic::power2::lemma_pow2_pos(k);
    lemma_pow2_unfold(64);
    lemma_pow2_unfold(63);
    if k > 0 {
        lemma_txt_check_schedule(retries, (k - 1) as nat);
        lemma_pow2_unfold(k);
        if k < 63 {
            lemma_pow2_strictly_increases(k, 63);
        }
    }
    if k < 63 {
        lemma_pow2_unfold(k + 1);
        lemma_pow2_strictly_increases(k, 63);
        if k + 1 < 64 {
            lemma_pow2_strictly_increases(k + 1, 64);
        }
    }
}

/// A lookup that sees the record ends the check with success, whatever the schedule.
pub proof fn lemma_txt_check_found(s: TxtCheck)
    ensures
        txt_check_next(s, true) == (s, TxtCheckStep::Found),
{
}

/// Decoding character strings keeps each valid one and drops each invalid one, in order:
/// the strings of a concatenation are the strings of its parts.
pub proof fn lemma_utf8_strings_concat(a: Seq<Seq<u8>>, b: Seq<Seq<u8>>)
    ensures
        utf8_strings(a + b) == utf8_strings(a) + utf8_strings(b),
    decreases b.len(),
{
    if b.len() == 0 {
        assert(a + b =~= a);
        assert(utf8_strings(a) + utf8_strings(b) =~= utf8_strings(a));
    } else {
        lemma_utf8_strings_concat(a, b.drop_last());
        assert((a + b).drop_last() =~= a + b.drop_last());
        assert((a + b).last() == b.last());
        if valid_utf8(b.last()) {
            assert(utf8_strings(a + b) =~= utf8_strings(a) + utf8_strings(b));
        } else {
            assert(utf8_strings(a + b) =~= utf8_strings(a) + utf8_strings(b));
        }
    }
}

/// One character string gives its decoding when it is valid UTF-8, and nothing otherwise.
pub proof fn lemma_utf8_strings_single(s: Seq<u8>)
    ensures
        valid_utf8(s) ==> utf8_strings(seq![s]) == seq![decode_utf8(s)],
        !valid_utf8(s) ==> utf8_strings(seq![s]) == Seq::<Seq<char>>::empty(),
{
    let none = Seq::<Seq<u8>>::empty();
    assert(utf8_strings(none) =~= Seq::<Seq<char>>::empty());
    assert(seq![s].drop_last() =~= none);
    assert(seq![s].last() == s);
    assert(utf8_strings(seq![s]) == if valid_utf8(s) {
        utf8_strings(none).push(decode_utf8(s))
    } else {
        utf8_strings(none)
    });
    assert(Seq::<Seq<char>>::empty().push(decode_utf8(s)) =~= seq![decode_utf8(s)]);
}

/// The TXT values of a response are read record by record: the values of a concatenation
/// of answer lists are the values of the parts, in order.
pub proof fn lemma_txt_values_concat(a: Seq<AnswerView>, b: Seq<AnswerView>)
    ensures
        txt_values(a + b) == txt_values(a) + txt_values(b),
    decreases b.len(),
{
    if b.len() == 0 {
        assert(a + b =~= a);
        assert(txt_values(a) + txt_values(b) =~= txt_values(a));
    } else {
        lemma_txt_values_concat(a, b.drop_last());
        assert((a + b).drop_last() =~= a + b.drop_last());
        assert((a + b).last() == b.last());
        assert(txt_values(a + b) =~= txt_values(a) + txt_values(b));
    }
}

/// A single answer contributes the valid UTF-8 strings of a TXT record, and nothing when
/// it is an SPF record or any other record.
pub proof fn lemma_txt_values_single(x: AnswerView)
    ensures
        x matches AnswerView::Txt(strings) ==> txt_values(seq![x]) == utf8_strings(strings),
        !(x is Txt) ==> txt_values(seq![x]) == Seq::<Seq<char>>::empty(),
{
    let none = Seq::<AnswerView>::empty();
    assert(txt_values(none) =~= Seq::<Seq<char>>::empty());
    assert(seq![x].drop_last() =~= none);
    assert(seq![x].last() == x);
    if let AnswerView::Txt(strings) = x {
        assert(txt_values(seq![x]) == txt_values(none) + utf8_strings(strings));
        assert(txt_values(seq![x]) =~= utf8_strings(strings));
    } else {
        assert(txt_values(seq![x]) == txt_values(none));
    }
}

/// Records that are not TXT records are skipped wherever they stand: inserting one
/// anywhere among the answers leaves the values unchanged.
pub proof fn lemma_txt_values_skip_other(a: Seq<AnswerView>, x: AnswerView, b: Seq<AnswerView>)
    requires
        !(x is Txt),
    ensures
        txt_values(a + seq![x] + b) == txt_values(a) + txt_values(b),
{
    lemma_txt_values_concat(a + seq![x], b);
    lemma_txt_values_concat(a, seq![x]);
    lemma_txt_values_single(x);
    assert(txt_values(a) + Seq::<Seq<char>>::empty() =~= txt_values(a));
}

} // verus!
