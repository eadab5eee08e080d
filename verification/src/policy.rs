//! Deterministic local capability-policy evaluation.
//!
//! A policy names the capabilities an installation may execute at all and
//! those that additionally need approval bound to one operation. Sets of
//! capabilities are modelled as sets of texts and enumerated in ascending
//! order, as an ordered set of strings enumerates them.

use vstd::prelude::*;

use crate::ordered::{
    canonical_set, contains_str, copy_str, lex_lt, sorted_of, string_views, strictly_sorted,
};
use crate::text::{char_is_token, is_token_char};

verus! {

/// Longest capability name and operation identity, in characters.
pub const MAX_ID_LEN: usize = 128;

/// A capability name: 1 to 128 lowercase ASCII letters, digits, `.`, `_` or `-`.
pub open spec fn valid_capability(c: Seq<char>) -> bool {
    1 <= c.len() <= MAX_ID_LEN && forall|i: int| 0 <= i < c.len() ==> is_token_char(#[trigger] c[i])
}

/// The set of texts held by a list.
pub open spec fn text_set(v: Seq<String>) -> Set<Seq<char>> {
    string_views(v).to_set()
}

/// First element of the sequence that is not a valid capability.
pub open spec fn first_invalid_capability(s: Seq<Seq<char>>) -> Option<Seq<char>>
    decreases s.len(),
{
    if s.len() == 0 {
        None
    } else if !valid_capability(s[0]) {
        Some(s[0])
    } else {
        first_invalid_capability(s.drop_first())
    }
}

/// First element of the sequence that is not in `allowed`.
pub open spec fn first_outside(s: Seq<Seq<char>>, allowed: Set<Seq<char>>) -> Option<Seq<char>>
    decreases s.len(),
{
    if s.len() == 0 {
        None
    } else if !allowed.contains(s[0]) {
        Some(s[0])
    } else {
        first_outside(s.drop_first(), allowed)
    }
}

/// Abstract value of an invalid policy or intent input.
pub enum PolicyIssue {
    InvalidId { field: Seq<char>, message: Seq<char> },
    InvalidCapability(Seq<char>),
    ApprovalForDisallowedCapability(Seq<char>),
}

/// The first problem of a policy whose sets enumerate as `allowed` and `required`, if any.
pub open spec fn policy_issue(allowed: Seq<Seq<char>>, required: Seq<Seq<char>>) -> Option<
    PolicyIssue,
> {
    if let Some(c) = first_invalid_capability(allowed) {
        Some(PolicyIssue::InvalidCapability(c))
    } else if let Some(c) = first_invalid_capability(required) {
        Some(PolicyIssue::InvalidCapability(c))
    } else if let Some(c) = first_outside(required, allowed.to_set()) {
        Some(PolicyIssue::ApprovalForDisallowedCapability(c))
    } else {
        None
    }
}

/// The first problem of an intent, if any.
pub open spec fn intent_issue(operation_id: Seq<char>, requested: Seq<Seq<char>>) -> Option<
    PolicyIssue,
> {
    if operation_id.len() == 0 {
        Some(
            PolicyIssue::InvalidId {
                field: "operation_id"@,
                message: "must not be empty"@,
            },
        )
    } else if operation_id.len() > MAX_ID_LEN {
        Some(
            PolicyIssue::InvalidId {
                field: "operation_id"@,
                message: "exceeds 128 characters"@,
            },
        )
    } else if let Some(c) = first_invalid_capability(requested) {
        Some(PolicyIssue::InvalidCapability(c))
    } else {
        None
    }
}

/// Locally configured capabilities and their approval requirements.
#[derive(Debug, Clone, PartialEq, Eq)]
pub struct CapabilityPolicy {
    /// Capabilities this installation may execute at all.
    pub allowed: Vec<String>,
    /// Allowed capabilities that also need explicit approval evidence.
    pub approval_required: Vec<String>,
}

/// One bounded operation Core is being asked to authorize.
#[derive(Debug, Clone, PartialEq, Eq)]
pub struct ExecutionIntent {
    /// Stable caller-provided operation identity used by evidence and approvals.
    pub operation_id: String,
    /// Capabilities the operation will exercise, taken as a set.
    pub requested: Vec<String>,
}

/// Invalid policy or intent input.
#[derive(Debug, Clone, PartialEq, Eq)]
pub enum PolicyInputError {
    /// A stable identifier failed validation.
    InvalidId { field: &'static str, message: &'static str },
    /// A capability name failed validation.
    InvalidCapability { capability: String },
    /// A policy requested approval for a capability it does not allow.
    ApprovalForDisallowedCapability { capability: String },
}

impl View for PolicyInputError {
    type V = PolicyIssue;

    open spec fn view(&self) -> PolicyIssue {
        match self {
            PolicyInputError::InvalidId { field, message } => PolicyIssue::InvalidId {
                field: field@,
                message: message@,
            },
            PolicyInputError::InvalidCapability { capability } => PolicyIssue::InvalidCapability(
                capability@,
            ),
            PolicyInputError::ApprovalForDisallowedCapability {
                capability,
            } => PolicyIssue::ApprovalForDisallowedCapability(capability@),
        }
    }
}

/// Approval lookup failure with a bounded client-safe code.
#[derive(Debug, Clone, PartialEq, Eq)]
pub struct ApprovalSourceError {
    /// Stable adapter-defined category without raw external details.
    pub code: String,
}

impl ApprovalSourceError {
    /// Create a source error whose code keeps at most 128 characters.
    pub fn new(code: &str) -> (r: Self)
        ensures
            r.code@ == (if code@.len() <= MAX_ID_LEN {
                code@
            } else {
                code@.take(MAX_ID_LEN as int)
            }),
    {
        let n = code.unicode_len();
        let end = if n <= MAX_ID_LEN {
            n
        } else {
            MAX_ID_LEN
        };
        let kept = code.substring_char(0, end);
        assert(code@.subrange(0, n as int) =~= code@);
        ApprovalSourceError { code: copy_str(kept) }
    }
}

/// Capability-gate failure before a policy decision can be produced.
#[derive(Debug)]
pub enum GateError {
    /// Policy or intent input was invalid.
    InvalidInput(PolicyInputError),
    /// Trusted approval state could not be read.
    ApprovalSource(ApprovalSourceError),
}

/// Trusted source of approvals bound to one operation identity.
///
/// Board or a future Cloud Adapter implements this seam; Core makes the final decision.
pub trait ApprovalSource {
    /// Whether `r` is an answer this source gives for the operation. What each implementation
    /// answers is its own; one that does not state it promises nothing more of its answers.
    closed spec fn answers(&self, operation_id: Seq<char>, r: Result<Vec<String>, ApprovalSourceError>) -> bool {
        true
    }

    /// Return capabilities explicitly approved for this operation.
    fn approved_capabilities(&self, operation_id: &str) -> (r: Result<Vec<String>, ApprovalSourceError>)
        ensures
            self.answers(operation_id@, r),
    ;
}

/// A stable reason why Core rejected an execution intent.
#[derive(Debug, Clone, PartialEq, Eq, PartialOrd, Ord)]
pub enum PolicyRejection {
    /// The installation does not permit this capability.
    CapabilityNotAllowed { capability: String },
    /// The capability is allowed only with explicit approval evidence.
    ApprovalRequired { capability: String },
}

/// Abstract value of a rejection reason.
pub enum RejectionView {
    CapabilityNotAllowed(Seq<char>),
    ApprovalRequired(Seq<char>),
}

impl View for PolicyRejection {
    type V = RejectionView;

    open spec fn view(&self) -> RejectionView {
        match self {
            PolicyRejection::CapabilityNotAllowed { capability } => RejectionView::CapabilityNotAllowed(
                capability@,
            ),
            PolicyRejection::ApprovalRequired { capability } => RejectionView::ApprovalRequired(
                capability@,
            ),
        }
    }
}

/// Deterministic local authorization result.
#[derive(Debug, Clone, PartialEq, Eq)]
pub enum PolicyDecision {
    /// Every requested capability is locally allowed and approved when required.
    Approved {
        /// Sorted capabilities authorized for this operation.
        capabilities: Vec<String>,
    },
    /// Core rejected the operation before invoking a Runner.
    Rejected {
        /// Sorted stable rejection reasons.
        reasons: Vec<PolicyRejection>,
    },
}

/// Abstract value of a policy decision.
pub enum DecisionView {
    Approved(Seq<Seq<char>>),
    Rejected(Seq<RejectionView>),
}

pub open spec fn rejection_views(v: Seq<PolicyRejection>) -> Seq<RejectionView> {
    v.map_values(|r: PolicyRejection| r@)
}

impl View for PolicyDecision {
    type V = DecisionView;

    open spec fn view(&self) -> DecisionView {
        match self {
            PolicyDecision::Approved { capabilities } => DecisionView::Approved(
                string_views(capabilities@),
            ),
            PolicyDecision::Rejected { reasons } => DecisionView::Rejected(rejection_views(reasons@)),
        }
    }
}

/// Requested capabilities, in ascending order, that the policy does not allow.
pub open spec fn not_allowed_reasons(requested: Seq<Seq<char>>, allowed: Set<Seq<char>>) -> Seq<
    RejectionView,
>
    decreases requested.len(),
{
    if requested.len() == 0 {
        Seq::empty()
    } else {
        let c = requested.last();
        let earlier = not_allowed_reasons(requested.drop_last(), allowed);
        if !allowed.contains(c) {
            earlier.push(RejectionView::CapabilityNotAllowed(c))
        } else {
            earlier
        }
    }
}

/// Requested capabilities, in ascending order, that are allowed but lack the approval they need.
pub open spec fn unapproved_reasons(
    requested: Seq<Seq<char>>,
    allowed: Set<Seq<char>>,
    required: Set<Seq<char>>,
    approved: Set<Seq<char>>,
) -> Seq<RejectionView>
    decreases requested.len(),
{
    if requested.len() == 0 {
        Seq::empty()
    } else {
        let c = requested.last();
        let earlier = unapproved_reasons(requested.drop_last(), allowed, required, approved);
        if allowed.contains(c) && required.contains(c) && !approved.contains(c) {
            earlier.push(RejectionView::ApprovalRequired(c))
        } else {
            earlier
        }
    }
}

/// The decision for ascending requested capabilities under a policy and approval set.
pub open spec fn decision(
    requested: Seq<Seq<char>>,
    allowed: Set<Seq<char>>,
    required: Set<Seq<char>>,
    approved: Set<Seq<char>>,
) -> DecisionView {
    let reasons = not_allowed_reasons(requested, allowed) + unapproved_reasons(
        requested,
        allowed,
        required,
        approved,
    );
    if reasons.len() == 0 {
        DecisionView::Approved(requested)
    } else {
        DecisionView::Rejected(reasons)
    }
}

/// Whether some requested capability needs approval evidence.
pub open spec fn needs_approval(requested: Set<Seq<char>>, required: Set<Seq<char>>) -> bool {
    exists|c: Seq<char>| requested.contains(c) && required.contains(c)
}

proof fn lemma_not_allowed_empty(requested: Seq<Seq<char>>, allowed: Set<Seq<char>>)
    ensures
        not_allowed_reasons(requested, allowed).len() == 0 <==> forall|i: int|
            0 <= i < requested.len() ==> allowed.contains(#[trigger] requested[i]),
    decreases requested.len(),
{
    if requested.len() > 0 {
        let d = requested.drop_last();
        lemma_not_allowed_empty(d, allowed);
        assert forall|i: int| 0 <= i < d.len() implies d[i] == requested[i] by {}
    }
}

proof fn lemma_unapproved_empty(
    requested: Seq<Seq<char>>,
    allowed: Set<Seq<char>>,
    required: Set<Seq<char>>,
    approved: Set<Seq<char>>,
)
    ensures
        unapproved_reasons(requested, allowed, required, approved).len() == 0 <==> forall|i: int|
            0 <= i < requested.len() ==> !(allowed.contains(#[trigger] requested[i])
                && required.contains(requested[i]) && !approved.contains(requested[i])),
    decreases requested.len(),
{
    if requested.len() > 0 {
        let d = requested.drop_last();
        lemma_unapproved_empty(d, allowed, required, approved);
        assert forall|i: int| 0 <= i < d.len() implies d[i] == requested[i] by {}
    }
}

/// The policy approves exactly when every requested capability is allowed and, when it needs
/// approval, approved.
pub proof fn law_approved_only_when_allowed_and_approved(
    requested: Seq<Seq<char>>,
    allowed: Set<Seq<char>>,
    required: Set<Seq<char>>,
    approved: Set<Seq<char>>,
)
    ensures
        decision(requested, allowed, required, approved) is Approved <==> forall|i: int|
            0 <= i < requested.len() ==> allowed.contains(#[trigger] requested[i]) && (required.contains(
                requested[i],
            ) ==> approved.contains(requested[i])),
{
    lemma_not_allowed_empty(requested, allowed);
    lemma_unapproved_empty(requested, allowed, required, approved);
}

pub proof fn lemma_no_invalid_capability(s: Seq<Seq<char>>)
    requires
        first_invalid_capability(s) is None,
    ensures
        forall|i: int| 0 <= i < s.len() ==> valid_capability(#[trigger] s[i]),
    decreases s.len(),
{
    if s.len() > 0 {
        lemma_no_invalid_capability(s.drop_first());
        assert forall|i: int| 0 <= i < s.len() implies valid_capability(#[trigger] s[i]) by {
            if i > 0 {
                assert(s[i] == s.drop_first()[i - 1]);
            }
        }
    }
}

/// Index of the first invalid capability in `v`, or `v.len()` when every one is valid.
fn first_invalid_index(v: &Vec<String>) -> (k: usize)
    ensures
        k <= v.len(),
        k < v.len() ==> first_invalid_capability(string_views(v@)) == Some(v@[k as int]@),
        k == v.len() ==> first_invalid_capability(string_views(v@)) is None,
{
    let ghost s = string_views(v@);
    let mut i: usize = 0;
    assert(s.skip(0) =~= s);
    while i < v.len()
        invariant
            i <= v.len(),
            s == string_views(v@),
            first_invalid_capability(s) == first_invalid_capability(s.skip(i as int)),
        decreases v.len() - i,
    {
        if !capability_is_valid(v[i].as_str()) {
            assert(s.skip(i as int)[0] == v@[i as int]@);
            return i;
        }
        assert(s.skip(i as int)[0] == v@[i as int]@);
        assert(s.skip(i as int).drop_first() =~= s.skip(i + 1));
        i = i + 1;
    }
    assert(s.skip(i as int).len() == 0);
    i
}

/// Whether one capability name is valid.
pub fn capability_is_valid(c: &str) -> (b: bool)
    ensures
        b == valid_capability(c@),
{
    let n = c.unicode_len();
    if n == 0 || n > MAX_ID_LEN {
        return false;
    }
    let mut i: usize = 0;
    while i < n
        invariant
            n == c@.len(),
            i <= n,
            forall|j: int| 0 <= j < i ==> is_token_char(#[trigger] c@[j]),
        decreases n - i,
    {
        if !char_is_token(c.get_char(i)) {
            return false;
        }
        i = i + 1;
    }
    true
}

/// Check every capability of an ascending list, reporting the first invalid one.
fn validate_capabilities(v: &Vec<String>) -> (r: Result<(), PolicyInputError>)
    ensures
        match first_invalid_capability(string_views(v@)) {
            None => r is Ok,
            Some(c) => r matches Err(e) && e@ == PolicyIssue::InvalidCapability(c),
        },
{
    let k = first_invalid_index(v);
    if k < v.len() {
        Err(PolicyInputError::InvalidCapability { capability: v[k].clone() })
    } else {
        Ok(())
    }
}

/// Index of the first element of `v` absent from `allowed`, or `v.len()`.
fn first_outside_index(v: &Vec<String>, allowed: &Vec<String>) -> (k: usize)
    ensures
        k <= v.len(),
        k < v.len() ==> first_outside(string_views(v@), text_set(allowed@)) == Some(
            v@[k as int]@,
        ),
        k == v.len() ==> first_outside(string_views(v@), text_set(allowed@)) is None,
{
    let ghost s = string_views(v@);
    let ghost a = text_set(allowed@);
    let mut i: usize = 0;
    assert(s.skip(0) =~= s);
    while i < v.len()
        invariant
            i <= v.len(),
            s == string_views(v@),
            a == text_set(allowed@),
            first_outside(s, a) == first_outside(s.skip(i as int), a),
        decreases v.len() - i,
    {
        assert(s.skip(i as int)[0] == v@[i as int]@);
        if !contains_str(allowed, v[i].as_str()) {
            return i;
        }
        assert(s.skip(i as int).drop_first() =~= s.skip(i + 1));
        i = i + 1;
    }
    assert(s.skip(i as int).len() == 0);
    i
}

impl CapabilityPolicy {
    /// The allowed capabilities in ascending order.
    pub open spec fn allowed_seq(&self) -> Seq<Seq<char>> {
        sorted_of(text_set(self.allowed@))
    }

    /// The approval-required capabilities in ascending order.
    pub open spec fn required_seq(&self) -> Seq<Seq<char>> {
        sorted_of(text_set(self.approval_required@))
    }

    /// Build and validate a policy; each list is taken as a set.
    pub fn new(allowed: Vec<String>, approval_required: Vec<String>) -> (r: Result<
        Self,
        PolicyInputError,
    >)
        ensures
            match policy_issue(
                sorted_of(text_set(allowed@)),
                sorted_of(text_set(approval_required@)),
            ) {
                Some(issue) => r matches Err(e) && e@ == issue,
                None => r matches Ok(p) && string_views(p.allowed@) == sorted_of(
                    text_set(allowed@),
                ) && string_views(p.approval_required@) == sorted_of(
                    text_set(approval_required@),
                ),
            },
    {
        let policy = CapabilityPolicy {
            allowed: canonical_set(&allowed),
            approval_required: canonical_set(&approval_required),
        };
        match policy.validate() {
            Ok(()) => Ok(policy),
            Err(e) => Err(e),
        }
    }

    /// Validate the policy's sets in ascending order.
    pub fn validate(&self) -> (r: Result<(), PolicyInputError>)
        ensures
            match policy_issue(self.allowed_seq(), self.required_seq()) {
                Some(issue) => r matches Err(e) && e@ == issue,
                None => r is Ok,
            },
    {
        let allowed = canonical_set(&self.allowed);
        let required = canonical_set(&self.approval_required);
        validate_capabilities(&allowed)?;
        validate_capabilities(&required)?;
        let k = first_outside_index(&required, &allowed);
        if k < required.len() {
            return Err(
                PolicyInputError::ApprovalForDisallowedCapability {
                    capability: required[k].clone(),
                },
            );
        }
        Ok(())
    }
}

impl ExecutionIntent {
    /// The requested capabilities in ascending order.
    pub open spec fn requested_seq(&self) -> Seq<Seq<char>> {
        sorted_of(text_set(self.requested@))
    }

    /// Validate an intent received from an external caller.
    pub fn validate(&self) -> (r: Result<(), PolicyInputError>)
        ensures
            match intent_issue(self.operation_id@, self.requested_seq()) {
                Some(issue) => r matches Err(e) && e@ == issue,
                None => r is Ok,
            },
    {
        let n = self.operation_id.as_str().unicode_len();
        if n == 0 {
            return Err(
                PolicyInputError::InvalidId { field: "operation_id", message: "must not be empty" },
            );
        }
        if n > MAX_ID_LEN {
            return Err(
                PolicyInputError::InvalidId {
                    field: "operation_id",
                    message: "exceeds 128 characters",
                },
            );
        }
        let requested = canonical_set(&self.requested);
        validate_capabilities(&requested)
    }
}

/// Whether any element of `requested` is in `required`.
fn any_required(requested: &Vec<String>, required: &Vec<String>) -> (b: bool)
    ensures
        b == needs_approval(text_set(requested@), text_set(required@)),
{
    let mut i: usize = 0;
    while i < requested.len()
        invariant
            i <= requested.len(),
            forall|j: int| 0 <= j < i ==> !text_set(required@).contains(#[trigger] requested@[j]@),
        decreases requested.len() - i,
    {
        if contains_str(required, requested[i].as_str()) {
            assert(string_views(requested@)[i as int] == requested@[i as int]@);
            assert(text_set(requested@).contains(requested@[i as int]@));
            return true;
        }
        i = i + 1;
    }
    proof {
        if needs_approval(text_set(requested@), text_set(required@)) {
            let c = choose|c: Seq<char>|
                text_set(requested@).contains(c) && text_set(required@).contains(c);
            let k = choose|k: int| 0 <= k < string_views(requested@).len() && string_views(requested@)[k] == c;
            assert(requested@[k]@ == c);
        }
    }
    false
}

/// Evaluate an ascending duplicate-free list of requested capabilities against a policy and
/// the capabilities approved for the operation.
pub fn evaluate(
    policy: &CapabilityPolicy,
    requested: &Vec<String>,
    approved: &Vec<String>,
) -> (d: PolicyDecision)
    ensures
        d@ == decision(
            string_views(requested@),
            text_set(policy.allowed@),
            text_set(policy.approval_required@),
            text_set(approved@),
        ),
{
    let ghost q = string_views(requested@);
    let ghost a = text_set(policy.allowed@);
    let ghost r = text_set(policy.approval_required@);
    let ghost p = text_set(approved@);
    let mut not_allowed: Vec<PolicyRejection> = Vec::new();
    let mut unapproved: Vec<PolicyRejection> = Vec::new();
    let mut i: usize = 0;
    while i < requested.len()
        invariant
            i <= requested.len(),
            q == string_views(requested@),
            a == text_set(policy.allowed@),
            r == text_set(policy.approval_required@),
            p == text_set(approved@),
            rejection_views(not_allowed@) == not_allowed_reasons(q.take(i as int), a),
            rejection_views(unapproved@) == unapproved_reasons(q.take(i as int), a, r, p),
        decreases requested.len() - i,
    {
        let c = requested[i].as_str();
        assert(q.take(i + 1).drop_last() =~= q.take(i as int));
        assert(q.take(i + 1).last() == requested@[i as int]@);
        if !contains_str(&policy.allowed, c) {
            not_allowed.push(PolicyRejection::CapabilityNotAllowed { capability: copy_str(c) });
        } else if contains_str(&policy.approval_required, c) && !contains_str(approved, c) {
            unapproved.push(PolicyRejection::ApprovalRequired { capability: copy_str(c) });
        }
        assert(rejection_views(not_allowed@) =~= not_allowed_reasons(q.take(i + 1), a));
        assert(rejection_views(unapproved@) =~= unapproved_reasons(q.take(i + 1), a, r, p));
        i = i + 1;
    }
    assert(q.take(requested.len() as int) =~= q);
    if not_allowed.len() == 0 && unapproved.len() == 0 {
        assert(not_allowed_reasons(q, a) + unapproved_reasons(q, a, r, p) =~= Seq::<
            RejectionView,
        >::empty());
        PolicyDecision::Approved { capabilities: crate::ordered::copy_strings(requested) }
    } else {
        let ghost left = rejection_views(not_allowed@);
        let ghost right = rejection_views(unapproved@);
        not_allowed.append(&mut unapproved);
        assert(rejection_views(not_allowed@) =~= left + right);
        PolicyDecision::Rejected { reasons: not_allowed }
    }
}

/// Local capability gate invoked before a Runner.
pub struct CapabilityGate<S> {
    policy: CapabilityPolicy,
    approvals: S,
}

impl<S: ApprovalSource> CapabilityGate<S> {
    /// The policy this gate enforces.
    pub closed spec fn policy(&self) -> CapabilityPolicy {
        self.policy
    }

    /// The trusted approval source this gate consults.
    pub closed spec fn approvals(&self) -> S {
        self.approvals
    }

    /// Create a gate from a policy and a trusted approval source.
    pub fn new(policy: CapabilityPolicy, approvals: S) -> (g: Self)
        ensures
            g.policy() == policy,
            g.approvals() == approvals,
    {
        CapabilityGate { policy, approvals }
    }

    /// Authorize one execution intent without accepting caller-asserted approvals.
    ///
    /// The trusted source is consulted only when some requested capability needs approval,
    /// once, for the intent's operation: its error fails the authorization closed, and otherwise the
    /// decision is the policy's decision for the approval set it returned.
    pub fn authorize(&self, intent: &ExecutionIntent) -> (r: Result<PolicyDecision, GateError>)
        ensures
            gate_outcome(self.policy(), self.approvals(), intent, r),
            r is Ok ==> strictly_sorted(intent.requested_seq()),
    {
        match self.policy.validate() {
            Ok(()) => {},
            Err(e) => return Err(GateError::InvalidInput(e)),
        }
        match intent.validate() {
            Ok(()) => {},
            Err(e) => return Err(GateError::InvalidInput(e)),
        }
        let requested = canonical_set(&intent.requested);
        if any_required(&requested, &self.policy.approval_required) {
            let answer = self.approvals.approved_capabilities(intent.operation_id.as_str());
            let raw = match answer {
                Ok(raw) => raw,
                Err(e) => {
                    proof {
                        assert(answered_outcome(
                            intent.requested_seq(),
                            text_set(self.policy.allowed@),
                            text_set(self.policy.approval_required@),
                            answer,
                            Err(GateError::ApprovalSource(e)),
                        ));
                    }
                    return Err(GateError::ApprovalSource(e));
                },
            };
            let approved = canonical_set(&raw);
            match validate_capabilities(&approved) {
                Ok(()) => {},
                Err(e) => {
                    proof {
                        assert(answered_outcome(
                            intent.requested_seq(),
                            text_set(self.policy.allowed@),
                            text_set(self.policy.approval_required@),
                            answer,
                            Err(GateError::InvalidInput(e)),
                        ));
                    }
                    return Err(GateError::InvalidInput(e));
                },
            }
            let d = evaluate(&self.policy, &requested, &approved);
            proof {
                assert(text_set(approved@) == text_set(raw@));
                assert(answered_outcome(
                    intent.requested_seq(),
                    text_set(self.policy.allowed@),
                    text_set(self.policy.approval_required@),
                    answer,
                    Ok(d),
                ));
            }
            Ok(d)
        } else {
            let none: Vec<String> = Vec::new();
            let d = evaluate(&self.policy, &requested, &none);
            proof {
                let q = string_views(requested@);
                let req = text_set(self.policy.approval_required@);
                assert forall|i: int| 0 <= i < q.len() implies !req.contains(#[trigger] q[i]) by {
                    assert(text_set(requested@).contains(q[i]));
                    if req.contains(q[i]) {
                        assert(needs_approval(text_set(requested@), req));
                    }
                }
                assert(text_set(none@) =~= Set::<Seq<char>>::empty());
                lemma_decision_without_required(
                    string_views(requested@),
                    text_set(self.policy.allowed@),
                    text_set(self.policy.approval_required@),
                    text_set(none@),
                    Set::empty(),
                );
            }
            Ok(d)
        }
    }
}

/// What `authorize` returns once the approval source answered `a`: the source's error, an
/// invalid capability it approved, or the policy's decision for the set it approved.
pub open spec fn answered_outcome(
    requested: Seq<Seq<char>>,
    allowed: Set<Seq<char>>,
    required: Set<Seq<char>>,
    a: Result<Vec<String>, ApprovalSourceError>,
    r: Result<PolicyDecision, GateError>,
) -> bool {
    match a {
        Err(e) => r == Err::<PolicyDecision, GateError>(GateError::ApprovalSource(e)),
        Ok(v) => match first_invalid_capability(sorted_of(text_set(v@))) {
            Some(c) => r matches Err(GateError::InvalidInput(e)) && e@ == PolicyIssue::InvalidCapability(c),
            None => r matches Ok(d) && d@ == decision(requested, allowed, required, text_set(v@)),
        },
    }
}

/// What `authorize` returns for a policy, an approval source and an intent.
pub open spec fn gate_outcome<S: ApprovalSource>(
    policy: CapabilityPolicy,
    approvals: S,
    intent: &ExecutionIntent,
    r: Result<PolicyDecision, GateError>,
) -> bool {
    let requested = intent.requested_seq();
    let allowed = text_set(policy.allowed@);
    let required = text_set(policy.approval_required@);
    if let Some(issue) = policy_issue(policy.allowed_seq(), policy.required_seq()) {
        r matches Err(GateError::InvalidInput(e)) && e@ == issue
    } else if let Some(issue) = intent_issue(intent.operation_id@, requested) {
        r matches Err(GateError::InvalidInput(e)) && e@ == issue
    } else if !needs_approval(text_set(intent.requested@), required) {
        r matches Ok(d) && d@ == decision(requested, allowed, required, Set::empty())
    } else {
        exists|a: Result<Vec<String>, ApprovalSourceError>|
            #[trigger] approvals.answers(intent.operation_id@, a) && answered_outcome(
                requested,
                allowed,
                required,
                a,
                r,
            )
    }
}

proof fn lemma_decision_without_required(
    requested: Seq<Seq<char>>,
    allowed: Set<Seq<char>>,
    required: Set<Seq<char>>,
    p1: Set<Seq<char>>,
    p2: Set<Seq<char>>,
)
    requires
        forall|i: int| 0 <= i < requested.len() ==> !required.contains(#[trigger] requested[i]),
    ensures
        decision(requested, allowed, required, p1) == decision(requested, allowed, required, p2),
    decreases requested.len(),
{
    lemma_unapproved_same(requested, allowed, required, p1, p2);
}

proof fn lemma_unapproved_same(
    requested: Seq<Seq<char>>,
    allowed: Set<Seq<char>>,
    required: Set<Seq<char>>,
    p1: Set<Seq<char>>,
    p2: Set<Seq<char>>,
)
    requires
        forall|i: int| 0 <= i < requested.len() ==> !required.contains(#[trigger] requested[i]),
    ensures
        unapproved_reasons(requested, allowed, required, p1) == unapproved_reasons(
            requested,
            allowed,
            required,
            p2,
        ),
    decreases requested.len(),
{
    if requested.len() > 0 {
        let d = requested.drop_last();
        assert forall|i: int| 0 <= i < d.len() implies !required.contains(#[trigger] d[i]) by {
            assert(d[i] == requested[i]);
        }
        lemma_unapproved_same(d, allowed, required, p1, p2);
        assert(requested.last() == requested[requested.len() - 1]);
    }
}

/// Requested capabilities are taken as a set: two intents for one operation that request the
/// same capabilities, in any order and with any repetition, are decided alike.
pub proof fn law_requested_order_is_irrelevant<S: ApprovalSource>(
    policy: CapabilityPolicy,
    approvals: S,
    first: ExecutionIntent,
    second: ExecutionIntent,
    r: Result<PolicyDecision, GateError>,
)
    requires
        first.operation_id@ == second.operation_id@,
        text_set(first.requested@) == text_set(second.requested@),
    ensures
        gate_outcome(policy, approvals, &first, r) == gate_outcome(policy, approvals, &second, r),
{
}

/// Approved capabilities are exactly the requested ones, in ascending order, each valid.
pub proof fn lemma_approved_capabilities<S: ApprovalSource>(
    policy: CapabilityPolicy,
    approvals: S,
    intent: &ExecutionIntent,
    capabilities: Vec<String>,
)
    requires
        gate_outcome(policy, approvals, intent, Ok(PolicyDecision::Approved { capabilities })),
        strictly_sorted(intent.requested_seq()),
    ensures
        string_views(capabilities@) == intent.requested_seq(),
        strictly_sorted(string_views(capabilities@)),
        forall|i: int|
            0 <= i < string_views(capabilities@).len() ==> valid_capability(
                #[trigger] string_views(capabilities@)[i],
            ),
{
    let q = intent.requested_seq();
    let allowed = text_set(policy.allowed@);
    let required = text_set(policy.approval_required@);
    assert(intent_issue(intent.operation_id@, q) is None);
    lemma_no_invalid_capability(q);
    if needs_approval(text_set(intent.requested@), required) {
        let a = choose|a: Result<Vec<String>, ApprovalSourceError>|
            #[trigger] approvals.answers(intent.operation_id@, a) && answered_outcome(
                q,
                allowed,
                required,
                a,
                Ok(PolicyDecision::Approved { capabilities }),
            );
    }
}

} // verus!
