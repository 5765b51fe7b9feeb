//! Answering the DNS-01 challenges of an order: which records to create, which challenges
//! to mark ready, and which records to remove when that fails.
//!
//! The caller performs each [`SetupAction`] and reports its outcome back; the methods of
//! [`ChallengeSetup`] decide the next action.
use vstd::prelude::*;

verus! {

/// Status of an authorization of an ACME order.
#[derive(Clone, Copy, Debug, PartialEq, Eq, Structural)]
pub enum AuthzStatus {
    Pending,
    Valid,
    Invalid,
    Revoked,
    Expired,
}

/// Type of an ACME challenge.
#[derive(Clone, Copy, Debug, PartialEq, Eq, Structural)]
pub enum ChallengeKind {
    Http01,
    Dns01,
    TlsAlpn01,
    Unknown,
}

/// A challenge offered for an authorization.
pub struct ChallengeInfo {
    pub kind: ChallengeKind,
    /// The challenge's URL, to mark it ready.
    pub url: String,
    /// The TXT record value that answers the challenge as a DNS-01 challenge.
    pub dns_value: String,
}

/// An authorization of an order, for one identifier.
pub struct AuthzInfo {
    /// The DNS name the authorization is for.
    pub identifier: String,
    pub status: AuthzStatus,
    pub challenges: Vec<ChallengeInfo>,
}

/// Index of the first DNS-01 challenge among `cs`.
pub open spec fn first_dns01(cs: Seq<ChallengeInfo>) -> Option<int>
    decreases cs.len(),
{
    if cs.len() == 0 {
        None
    } else if cs[0].kind == ChallengeKind::Dns01 {
        Some(0)
    } else {
        match first_dns01(cs.drop_first()) {
            Some(j) => Some(j + 1),
            None => None,
        }
    }
}

/// Whether every authorization is in a status the flow handles: pending or valid.
pub open spec fn supported_statuses(auths: Seq<AuthzInfo>) -> bool {
    forall|i: int| 0 <= i < auths.len() ==> (#[trigger] auths[i]).status == AuthzStatus::Pending
        || auths[i].status == AuthzStatus::Valid
}

/// Whether the flow stops at an authorization: a pending one with a DNS-01 challenge gets
/// a record. Valid ones, and pending ones without a DNS-01 challenge, are passed over.
pub open spec fn needs_action(a: AuthzInfo) -> bool {
    a.status == AuthzStatus::Pending && first_dns01(a.challenges@) is Some
}

/// The first authorization at or after `from` that needs action, or `auths.len()`.
pub open spec fn next_actionable(auths: Seq<AuthzInfo>, from: int) -> int
    decreases auths.len() - from,
{
    if from >= auths.len() {
        auths.len() as int
    } else if needs_action(auths[from]) {
        from
    } else {
        next_actionable(auths, from + 1)
    }
}

/// Where the flow stands.
#[derive(Clone, Copy, Debug, PartialEq, Eq, Structural)]
pub enum SetupPhase {
    /// Creating records: authorization `authz` is the current one.
    Records { authz: usize },
    /// Marking challenges ready: challenge `challenge` is the next one.
    Ready { challenge: usize },
    /// A challenge could not be marked ready: removing record `record` next.
    Cleanup { record: usize },
}

/// The state of answering an order's challenges.
pub struct ChallengeSetup {
    /// The order's authorizations, in the order the CA listed them.
    pub authorizations: Vec<AuthzInfo>,
    pub phase: SetupPhase,
    /// Identifier and URL of each challenge whose record was created, in creation order.
    pub challenges: Vec<(String, String)>,
    /// Zone and record identifiers of the created records, in creation order.
    pub dns_ids: Vec<(String, String)>,
}

/// What the caller does next.
pub enum SetupAction {
    /// Publish a TXT record with `value` for the challenge of `identifier`.
    CreateRecord { identifier: String, value: String },
    /// Tell the CA that the challenge at `url` can be validated.
    SetReady { url: String },
    /// Remove a record created earlier (its outcome does not matter).
    DeleteRecord { domain_id: String, dns_id: String },
    /// Every challenge is marked ready: the identifiers answered and their records.
    Finished { names: Vec<String>, dns_ids: Vec<(String, String)> },
    /// A challenge could not be marked ready, and every record is removed.
    Failed,
}

/// What a [`SetupAction`] asks for.
pub enum ActionModel {
    CreateRecord { identifier: String, value: String },
    SetReady { url: String },
    DeleteRecord { domain_id: String, dns_id: String },
    Finished { names: Seq<String>, dns_ids: Seq<(String, String)> },
    Failed,
}

impl View for SetupAction {
    type V = ActionModel;

    open spec fn view(&self) -> ActionModel {
        match self {
            SetupAction::CreateRecord { identifier, value } => ActionModel::CreateRecord {
                identifier: *identifier,
                value: *value,
            },
            SetupAction::SetReady { url } => ActionModel::SetReady { url: *url },
            SetupAction::DeleteRecord { domain_id, dns_id } => ActionModel::DeleteRecord {
                domain_id: *domain_id,
                dns_id: *dns_id,
            },
            SetupAction::Finished { names, dns_ids } => ActionModel::Finished {
                names: names@,
                dns_ids: dns_ids@,
            },
            SetupAction::Failed => ActionModel::Failed,
        }
    }
}

/// The state of the flow, apart from the authorizations, which never change.
pub struct SetupModel {
    pub phase: SetupPhase,
    pub challenges: Seq<(String, String)>,
    pub dns_ids: Seq<(String, String)>,
}

/// The phase that continues the record phase at authorization `from`: the next one that
/// needs action, or marking challenges ready from the first when none is left.
pub open spec fn records_from(auths: Seq<AuthzInfo>, from: int) -> SetupPhase {
    let k = next_actionable(auths, from);
    if k < auths.len() {
        SetupPhase::Records { authz: k as usize }
    } else {
        SetupPhase::Ready { challenge: 0 }
    }
}

/// The flow at its start.
pub open spec fn setup_start(auths: Seq<AuthzInfo>) -> SetupModel {
    SetupModel { phase: records_from(auths, 0), challenges: seq![], dns_ids: seq![] }
}

/// The flow after the record for the current authorization was created (`Some` with its
/// identifiers) or not (`None`): the next authorization is examined either way.
pub open spec fn setup_record_created(
    auths: Seq<AuthzInfo>,
    m: SetupModel,
    id: Option<(String, String)>,
) -> SetupModel {
    let i = m.phase->authz as int;
    let a = auths[i];
    let c = a.challenges@[first_dns01(a.challenges@).unwrap()];
    SetupModel {
        phase: records_from(auths, i + 1),
        challenges: match id {
            Some(_) => m.challenges.push((a.identifier, c.url)),
            None => m.challenges,
        },
        dns_ids: match id {
            Some(d) => m.dns_ids.push(d),
            None => m.dns_ids,
        },
    }
}

/// The flow after marking the current challenge ready succeeded (`ok`) or failed: the
/// next challenge, or cleanup from the first record.
pub open spec fn setup_ready_set(m: SetupModel, ok: bool) -> SetupModel {
    SetupModel {
        phase: if ok {
            SetupPhase::Ready { challenge: (m.phase->challenge + 1) as usize }
        } else {
            SetupPhase::Cleanup { record: 0 }
        },
        ..m
    }
}

/// The flow after removing the current record.
pub open spec fn setup_record_deleted(m: SetupModel) -> SetupModel {
    SetupModel { phase: SetupPhase::Cleanup { record: (m.phase->record + 1) as usize }, ..m }
}

/// The action the flow asks for in a state.
pub open spec fn setup_action(auths: Seq<AuthzInfo>, m: SetupModel) -> ActionModel {
    match m.phase {
        SetupPhase::Records { authz } => {
            let a = auths[authz as int];
            ActionModel::CreateRecord {
                identifier: a.identifier,
                value: a.challenges@[first_dns01(a.challenges@).unwrap()].dns_value,
            }
        },
        SetupPhase::Ready { challenge } => {
            if challenge < m.challenges.len() {
                ActionModel::SetReady { url: m.challenges[challenge as int].1 }
            } else {
                ActionModel::Finished {
                    names: m.challenges.map_values(|c: (String, String)| c.0),
                    dns_ids: m.dns_ids,
                }
            }
        },
        SetupPhase::Cleanup { record } => {
            if record < m.dns_ids.len() {
                ActionModel::DeleteRecord {
                    domain_id: m.dns_ids[record as int].0,
                    dns_id: m.dns_ids[record as int].1,
                }
            } else {
                ActionModel::Failed
            }
        },
    }
}

/// A consistent state: authorizations in handled statuses, one record per answered
/// challenge, and the phase within bounds, stopped in the record phase only at an
/// authorization that needs action.
pub open spec fn setup_wf(auths: Seq<AuthzInfo>, m: SetupModel) -> bool {
    &&& supported_statuses(auths)
    &&& m.challenges.len() == m.dns_ids.len()
    &&& match m.phase {
        SetupPhase::Records { authz } => authz < auths.len() && needs_action(auths[authz as int]),
        SetupPhase::Ready { challenge } => challenge <= m.challenges.len(),
        SetupPhase::Cleanup { record } => record <= m.dns_ids.len(),
    }
}

/// `first_dns01` finds the first DNS-01 challenge, when there is one.
pub proof fn lemma_first_dns01(cs: Seq<ChallengeInfo>)
    ensures
        match first_dns01(cs) {
            Some(j) => 0 <= j < cs.len() && cs[j].kind == ChallengeKind::Dns01
                && forall|k: int| 0 <= k < j ==> cs[k].kind != ChallengeKind::Dns01,
            None => forall|k: int| 0 <= k < cs.len() ==> cs[k].kind != ChallengeKind::Dns01,
        },
    decreases cs.len(),
{
    if cs.len() > 0 {
        lemma_first_dns01(cs.drop_first());
        if cs[0].kind != ChallengeKind::Dns01 {
            assert forall|k: int| 0 < k < cs.len() implies cs[k] == cs.drop_first()[k - 1] by {}
        }
    }
}

/// `next_actionable` finds the first authorization from `from` on that needs action.
pub proof fn lemma_next_actionable(auths: Seq<AuthzInfo>, from: int)
    requires
        0 <= from,
    ensures
        from <= next_actionable(auths, from) <= auths.len() || (from > auths.len()
            && next_actionable(auths, from) == auths.len()),
        next_actionable(auths, from) < auths.len() ==> needs_action(auths[next_actionable(auths, from)]),
        forall|k: int| from <= k < next_actionable(auths, from) ==> !needs_action(auths[k]),
    decreases auths.len() - from,
{
    if from < auths.len() && !needs_action(auths[from]) {
        lemma_next_actionable(auths, from + 1);
    }
}

/// Index of the first DNS-01 challenge among `cs`.
fn find_dns01(cs: &Vec<ChallengeInfo>) -> (r: Option<usize>)
    ensures
        match r {
            Some(j) => first_dns01(cs@) == Some(j as int),
            None => first_dns01(cs@) is None,
        },
{
    proof {
        lemma_first_dns01(cs@);
    }
    let mut i: usize = 0;
    while i < cs.len()
        invariant
            i <= cs@.len(),
            forall|k: int| 0 <= k < i ==> cs@[k].kind != ChallengeKind::Dns01,
            match first_dns01(cs@) {
                Some(j) => 0 <= j < cs@.len() && cs@[j].kind == ChallengeKind::Dns01
                    && forall|k: int| 0 <= k < j ==> cs@[k].kind != ChallengeKind::Dns01,
                None => forall|k: int| 0 <= k < cs@.len() ==> cs@[k].kind != ChallengeKind::Dns01,
            },
        decreases cs@.len() - i,
    {
        if cs[i].kind == ChallengeKind::Dns01 {
            return Some(i);
        }
        i = i + 1;
    }
    None
}

/// A copy of a list of record identifiers.
fn copy_ids(ids: &Vec<(String, String)>) -> (r: Vec<(String, String)>)
    ensures
        r@ == ids@,
{
    let mut r: Vec<(String, String)> = Vec::new();
    let mut i: usize = 0;
    while i < ids.len()
        invariant
            i <= ids@.len(),
            r@ == ids@.take(i as int),
        decreases ids@.len() - i,
    {
        r.push((ids[i].0.clone(), ids[i].1.clone()));
        i = i + 1;
        assert(r@ =~= ids@.take(i as int));
    }
    assert(ids@.take(i as int) =~= ids@);
    r
}

/// Whether the flow stops at `a`.
fn authz_needs_action(a: &AuthzInfo) -> (r: bool)
    ensures
        r == needs_action(*a),
{
    match a.status {
        AuthzStatus::Pending => find_dns01(&a.challenges).is_some(),
        _ => false,
    }
}

impl ChallengeSetup {
    /// The state of the flow, apart from the authorizations.
    pub open spec fn model(&self) -> SetupModel {
        SetupModel { phase: self.phase, challenges: self.challenges@, dns_ids: self.dns_ids@ }
    }

    /// A consistent state of the flow.
    pub open spec fn wf(&self) -> bool {
        setup_wf(self.authorizations@, self.model())
    }

    /// The phase continuing the record phase at authorization `from`.
    fn records_from(&self, from: usize) -> (p: SetupPhase)
        requires
            from <= self.authorizations@.len(),
        ensures
            p == records_from(self.authorizations@, from as int),
    {
        let mut k = from;
        while k < self.authorizations.len()
            invariant
                from <= k <= self.authorizations@.len(),
                next_actionable(self.authorizations@, from as int)
                    == next_actionable(self.authorizations@, k as int),
            decreases self.authorizations@.len() - k,
        {
            if authz_needs_action(&self.authorizations[k]) {
                return SetupPhase::Records { authz: k };
            }
            k = k + 1;
        }
        SetupPhase::Ready { challenge: 0 }
    }

    /// The action the current state asks for.
    fn action(&self) -> (a: SetupAction)
        requires
            self.wf(),
        ensures
            a@ == setup_action(self.authorizations@, self.model()),
    {
        match self.phase {
            SetupPhase::Records { authz } => {
                let a = &self.authorizations[authz];
                proof {
                    lemma_first_dns01(a.challenges@);
                }
                let j = find_dns01(&a.challenges).unwrap();
                SetupAction::CreateRecord {
                    identifier: a.identifier.clone(),
                    value: a.challenges[j].dns_value.clone(),
                }
            },
            SetupPhase::Ready { challenge } => {
                if challenge < self.challenges.len() {
                    SetupAction::SetReady { url: self.challenges[challenge].1.clone() }
                } else {
                    let mut names: Vec<String> = Vec::new();
                    let mut i: usize = 0;
                    while i < self.challenges.len()
                        invariant
                            i <= self.challenges@.len(),
                            names@ == self.challenges@.take(i as int).map_values(|c: (String, String)| c.0),
                        decreases self.challenges@.len() - i,
                    {
                        names.push(self.challenges[i].0.clone());
                        i = i + 1;
                        assert(self.challenges@.take(i as int).map_values(|c: (String, String)| c.0)
                            =~= names@);
                    }
                    assert(self.challenges@.take(i as int) =~= self.challenges@);
                    SetupAction::Finished { names, dns_ids: copy_ids(&self.dns_ids) }
                }
            },
            SetupPhase::Cleanup { record } => {
                if record < self.dns_ids.len() {
                    SetupAction::DeleteRecord {
                        domain_id: self.dns_ids[record].0.clone(),
                        dns_id: self.dns_ids[record].1.clone(),
                    }
                } else {
                    SetupAction::Failed
                }
            },
        }
    }

    /// Starts answering the challenges of `authorizations`. Authorizations that are
    /// neither pending nor valid are not handled, and left out.
    pub fn new(authorizations: Vec<AuthzInfo>) -> (r: (ChallengeSetup, SetupAction))
        requires
            supported_statuses(authorizations@),
        ensures
            r.0.authorizations == authorizations,
            r.0.model() == setup_start(authorizations@),
            r.0.wf(),
            r.1@ == setup_action(authorizations@, r.0.model()),
    {
        let mut s = ChallengeSetup {
            authorizations,
            phase: SetupPhase::Ready { challenge: 0 },
            challenges: Vec::new(),
            dns_ids: Vec::new(),
        };
        let _n = s.authorizations.len();
        s.phase = s.records_from(0);
        proof {
            lemma_next_actionable(s.authorizations@, 0);
        }
        assert(s.model() == setup_start(s.authorizations@));
        let a = s.action();
        (s, a)
    }

    /// The record for the current authorization was created, with these zone and record
    /// identifiers (`Some`), or could not be (`None`).
    pub fn record_created(&mut self, id: Option<(String, String)>) -> (a: SetupAction)
        requires
            old(self).wf(),
            old(self).phase is Records,
            old(self).authorizations@[old(self).phase->authz as int].status == AuthzStatus::Pending,
        ensures
            final(self).authorizations == old(self).authorizations,
            final(self).model() == setup_record_created(old(self).authorizations@, old(self).model(), id),
            final(self).wf(),
            a@ == setup_action(final(self).authorizations@, final(self).model()),
    {
        let i = match self.phase {
            SetupPhase::Records { authz } => authz,
            _ => 0,
        };
        let ghost m = self.model();
        let _n = self.authorizations.len();
        assert(i < self.authorizations@.len());
        proof {
            lemma_first_dns01(self.authorizations@[i as int].challenges@);
        }
        let j = find_dns01(&self.authorizations[i].challenges).unwrap();
        match id {
            Some(d) => {
                let identifier = self.authorizations[i].identifier.clone();
                let url = self.authorizations[i].challenges[j].url.clone();
                self.challenges.push((identifier, url));
                self.dns_ids.push(d);
            },
            None => {},
        }
        self.phase = self.records_from(i + 1);
        proof {
            lemma_next_actionable(self.authorizations@, i + 1);
        }
        assert(self.model() == setup_record_created(self.authorizations@, m, id));
        self.action()
    }

    /// Marking the current challenge ready succeeded (`ok`) or failed.
    pub fn ready_set(&mut self, ok: bool) -> (a: SetupAction)
        requires
            old(self).wf(),
            old(self).phase matches SetupPhase::Ready { challenge } && challenge < old(self).challenges@.len(),
        ensures
            final(self).authorizations == old(self).authorizations,
            final(self).model() == setup_ready_set(old(self).model(), ok),
            final(self).wf(),
            a@ == setup_action(final(self).authorizations@, final(self).model()),
    {
        let i = match self.phase {
            SetupPhase::Ready { challenge } => challenge,
            _ => 0,
        };
        let _n = self.challenges.len();
        assert(i < self.challenges@.len());
        if ok {
            self.phase = SetupPhase::Ready { challenge: i + 1 };
        } else {
            self.phase = SetupPhase::Cleanup { record: 0 };
        }
        self.action()
    }

    /// The current record was removed, or its removal failed.
    pub fn record_deleted(&mut self) -> (a: SetupAction)
        requires
            old(self).wf(),
            old(self).phase matches SetupPhase::Cleanup { record } && record < old(self).dns_ids@.len(),
        ensures
            final(self).authorizations == old(self).authorizations,
            final(self).model() == setup_record_deleted(old(self).model()),
            final(self).wf(),
            a@ == setup_action(final(self).authorizations@, final(self).model()),
    {
        let i = match self.phase {
            SetupPhase::Cleanup { record } => record,
            _ => 0,
        };
        let _n = self.dns_ids.len();
        assert(i < self.dns_ids@.len());
        self.phase = SetupPhase::Cleanup { record: i + 1 };
        self.action()
    }
}

/// The flow after `k` records were removed in cleanup.
pub open spec fn setup_after_deletes(m: SetupModel, k: nat) -> SetupModel
    decreases k,
{
    if k == 0 {
        m
    } else {
        setup_record_deleted(setup_after_deletes(m, (k - 1) as nat))
    }
}

/// The flow after `k` more challenges were marked ready.
pub open spec fn setup_after_ready(m: SetupModel, k: nat) -> SetupModel
    decreases k,
{
    if k == 0 {
        m
    } else {
        setup_ready_set(setup_after_ready(m, (k - 1) as nat), true)
    }
}

/// When a challenge cannot be marked ready, every record created so far is removed,
/// each once and in creation order, and only then does the flow fail.
pub proof fn lemma_failed_ready_removes_every_record(auths: Seq<AuthzInfo>, m: SetupModel, k: nat)
    requires
        setup_wf(auths, m),
        m.phase is Ready,
        k <= m.dns_ids.len(),
        m.dns_ids.len() <= usize::MAX,
    ensures
        ({
            let c = setup_after_deletes(setup_ready_set(m, false), k);
            &&& c.dns_ids == m.dns_ids
            &&& c.challenges == m.challenges
            &&& c.phase == SetupPhase::Cleanup { record: k as usize }
            &&& setup_wf(auths, c)
            &&& k < m.dns_ids.len() ==> setup_action(auths, c) == ActionModel::DeleteRecord {
                domain_id: m.dns_ids[k as int].0,
                dns_id: m.dns_ids[k as int].1,
            }
            &&& k == m.dns_ids.len() ==> setup_action(auths, c) == ActionModel::Failed
        }),
    decreases k,
{
    if k > 0 {
        lemma_failed_ready_removes_every_record(auths, m, (k - 1) as nat);
    }
}

/// When every challenge from the current one on is marked ready, the flow finishes with
/// the identifiers of all answered challenges and the identifiers of all their records,
/// one record per identifier, in creation order.
pub proof fn lemma_ready_challenges_finish(auths: Seq<AuthzInfo>, m: SetupModel, k: nat)
    requires
        setup_wf(auths, m),
        m.phase matches SetupPhase::Ready { challenge } && challenge + k <= m.challenges.len(),
        m.challenges.len() <= usize::MAX,
    ensures
        ({
            let c = setup_after_ready(m, k);
            let i = m.phase->challenge + k;
            &&& c.dns_ids == m.dns_ids
            &&& c.challenges == m.challenges
            &&& c.phase == SetupPhase::Ready { challenge: i as usize }
            &&& setup_wf(auths, c)
            &&& i < m.challenges.len() ==> setup_action(auths, c) == ActionModel::SetReady {
                url: m.challenges[i].1,
            }
            &&& i == m.challenges.len() ==> setup_action(auths, c) == ActionModel::Finished {
                names: m.challenges.map_values(|ch: (String, String)| ch.0),
                dns_ids: m.dns_ids,
            }
            &&& i == m.challenges.len() ==> m.challenges.map_values(|ch: (String, String)| ch.0).len()
                == m.dns_ids.len()
        }),
    decreases k,
{
    if k > 0 {
        lemma_ready_challenges_finish(auths, m, (k - 1) as nat);
    }
}

/// Record creation walks the authorizations in order, each at most once: after an outcome
/// the flow stops at a later authorization, the ones passed over in between need no
/// action, and when none is left it turns to marking challenges ready from the first.
/// A created record adds exactly one record identifier and one challenge to mark ready:
/// the authorization's identifier with the URL of its first DNS-01 challenge, the one
/// whose value the record holds; a record that could not be created adds nothing.
pub proof fn lemma_record_created_advances(
    auths: Seq<AuthzInfo>,
    m: SetupModel,
    id: Option<(String, String)>,
)
    requires
        setup_wf(auths, m),
        m.phase is Records,
        auths[m.phase->authz as int].status == AuthzStatus::Pending,
        auths.len() <= usize::MAX,
    ensures
        ({
            let i = m.phase->authz as int;
            let n = setup_record_created(auths, m, id);
            &&& setup_wf(auths, n)
            &&& match n.phase {
                SetupPhase::Records { authz } => i < authz && forall|k: int|
                    i < k < authz ==> !needs_action(#[trigger] auths[k]),
                SetupPhase::Ready { challenge } => challenge == 0 && forall|k: int|
                    i < k < auths.len() ==> !needs_action(#[trigger] auths[k]),
                SetupPhase::Cleanup { .. } => false,
            }
            &&& n.dns_ids.len() == m.dns_ids.len() + if id is Some { 1int } else { 0int }
            &&& n.challenges.len() == n.dns_ids.len()
            &&& id is None ==> n.challenges == m.challenges && n.dns_ids == m.dns_ids
            &&& id matches Some(d) ==> {
                let a = auths[i];
                &&& n.dns_ids == m.dns_ids.push(d)
                &&& n.challenges.drop_last() == m.challenges
                &&& n.challenges.last().0 == a.identifier
                &&& exists|j: int| #![trigger a.challenges@[j]]
                    0 <= j < a.challenges@.len() && a.challenges@[j].kind == ChallengeKind::Dns01
                        && n.challenges.last().1 == a.challenges@[j].url
                        && forall|l: int| 0 <= l < j ==> (#[trigger] a.challenges@[l]).kind
                            != ChallengeKind::Dns01
            }
        }),
{
    lemma_next_actionable(auths, m.phase->authz as int + 1);
    lemma_first_dns01(auths[m.phase->authz as int].challenges@);
    let n = setup_record_created(auths, m, id);
    if id is Some {
        assert(n.challenges.drop_last() =~= m.challenges);
    }
}

/// A record is only ever asked for a pending authorization that offers a DNS-01
/// challenge: for its identifier, with the value of its first DNS-01 challenge.
pub proof fn lemma_create_record_targets_dns_challenge(auths: Seq<AuthzInfo>, m: SetupModel)
    requires
        setup_wf(auths, m),
        m.phase is Records,
    ensures
        ({
            let a = auths[m.phase->authz as int];
            match setup_action(auths, m) {
                ActionModel::CreateRecord { identifier, value } => {
                    &&& a.status == AuthzStatus::Pending
                    &&& identifier == a.identifier
                    &&& exists|j: int| #![trigger a.challenges@[j]]
                        0 <= j < a.challenges@.len() && a.challenges@[j].kind == ChallengeKind::Dns01
                            && value == a.challenges@[j].dns_value
                            && forall|l: int| 0 <= l < j ==> (#[trigger] a.challenges@[l]).kind
                                != ChallengeKind::Dns01
                },
                _ => false,
            }
        }),
{
    lemma_first_dns01(auths[m.phase->authz as int].challenges@);
}

/// An authorization that is pending and offers a DNS-01 challenge, at any position among
/// its challenges.
pub open spec fn pending_with_dns01(a: AuthzInfo) -> bool {
    &&& a.status == AuthzStatus::Pending
    &&& exists|j: int| 0 <= j < a.challenges@.len() && (#[trigger] a.challenges@[j]).kind == ChallengeKind::Dns01
}

/// The flow stops exactly at the pending authorizations that offer a DNS-01 challenge.
pub proof fn lemma_needs_action_iff_pending_with_dns01(a: AuthzInfo)
    ensures
        needs_action(a) <==> pending_with_dns01(a),
{
    lemma_first_dns01(a.challenges@);
}

/// The record phase, continued at authorization `from`, stops at the first authorization
/// from there on that is pending and offers a DNS-01 challenge (wherever that challenge
/// stands among its challenges), passing over exactly the ones before it; when there is
/// none it turns to marking challenges ready from the first.
pub proof fn lemma_records_from_stops_at_first_dns01(auths: Seq<AuthzInfo>, from: int)
    requires
        0 <= from <= auths.len(),
        auths.len() <= usize::MAX,
    ensures
        match records_from(auths, from) {
            SetupPhase::Records { authz } => {
                &&& from <= authz < auths.len()
                &&& pending_with_dns01(auths[authz as int])
                &&& forall|k: int| from <= k < authz ==> !pending_with_dns01(#[trigger] auths[k])
            },
            SetupPhase::Ready { challenge } => challenge == 0 && forall|k: int|
                from <= k < auths.len() ==> !pending_with_dns01(#[trigger] auths[k]),
            SetupPhase::Cleanup { .. } => false,
        },
{
    lemma_next_actionable(auths, from);
    let n = next_actionable(auths, from);
    assert forall|k: int| from <= k < n implies !pending_with_dns01(#[trigger] auths[k]) by {
        lemma_needs_action_iff_pending_with_dns01(auths[k]);
    }
    if n < auths.len() {
        lemma_needs_action_iff_pending_with_dns01(auths[n]);
    }
}

/// The first action of the flow creates a record exactly when some authorization is
/// pending and offers a DNS-01 challenge: for the first such authorization, with the value
/// of its first DNS-01 challenge. Otherwise the flow finishes at once, with no names and
/// no records.
pub proof fn lemma_first_action(auths: Seq<AuthzInfo>)
    requires
        supported_statuses(auths),
        auths.len() <= usize::MAX,
    ensures
        (exists|i: int| 0 <= i < auths.len() && pending_with_dns01(#[trigger] auths[i]))
            <==> setup_action(auths, setup_start(auths)) is CreateRecord,
        setup_action(auths, setup_start(auths)) matches ActionModel::CreateRecord { identifier, value }
            ==> exists|i: int| #![trigger auths[i]] 0 <= i < auths.len() && {
                &&& pending_with_dns01(auths[i])
                &&& forall|k: int| 0 <= k < i ==> !pending_with_dns01(#[trigger] auths[k])
                &&& identifier == auths[i].identifier
                &&& exists|j: int| #![trigger auths[i].challenges@[j]] 0 <= j < auths[i].challenges@.len()
                    && auths[i].challenges@[j].kind == ChallengeKind::Dns01
                    && value == auths[i].challenges@[j].dns_value
                    && forall|l: int| 0 <= l < j ==> (#[trigger] auths[i].challenges@[l]).kind != ChallengeKind::Dns01
            },
        (forall|i: int| 0 <= i < auths.len() ==> !pending_with_dns01(#[trigger] auths[i]))
            ==> setup_action(auths, setup_start(auths)) == (ActionModel::Finished {
                names: Seq::<String>::empty(),
                dns_ids: Seq::<(String, String)>::empty(),
            }),
{
    lemma_records_from_stops_at_first_dns01(auths, 0);
    match records_from(auths, 0) {
        SetupPhase::Records { authz } => {
            lemma_first_dns01(auths[authz as int].challenges@);
        },
        _ => {
            let m = setup_start(auths);
            assert(m.challenges.map_values(|c: (String, String)| c.0) =~= Seq::<String>::empty());
        },
    }
}

} // verus!
