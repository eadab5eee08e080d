use gareji::policy::{
    capability_is_valid, evaluate, ApprovalSource, ApprovalSourceError, CapabilityGate,
    CapabilityPolicy, ExecutionIntent, GateError, PolicyDecision, PolicyInputError,
    PolicyRejection,
};

fn set(values: &[&str]) -> Vec<String> {
    values.iter().map(|value| (*value).to_owned()).collect()
}

struct StaticApprovals {
    approved: Vec<String>,
    fail: bool,
}

impl ApprovalSource for StaticApprovals {
    fn approved_capabilities(&self, _operation_id: &str) -> Result<Vec<String>, ApprovalSourceError> {
        if self.fail {
            Err(ApprovalSourceError::new("board_unavailable"))
        } else {
            Ok(self.approved.clone())
        }
    }
}

fn gate(policy: CapabilityPolicy, approved: &[&str]) -> CapabilityGate<StaticApprovals> {
    CapabilityGate::new(
        policy,
        StaticApprovals {
            approved: set(approved),
            fail: false,
        },
    )
}

#[test]
fn approves_allowed_capabilities_without_required_approval() {
    let policy = CapabilityPolicy::new(set(&["context.read"]), set(&[])).unwrap();
    let intent = ExecutionIntent {
        operation_id: "run-1".to_owned(),
        requested: set(&["context.read"]),
    };

    assert_eq!(
        gate(policy, &[]).authorize(&intent).unwrap(),
        PolicyDecision::Approved {
            capabilities: vec!["context.read".to_owned()]
        }
    );
}

#[test]
fn rejects_missing_approval_before_runner_invocation() {
    let policy = CapabilityPolicy::new(
        set(&["context.read", "production.write"]),
        set(&["production.write"]),
    )
    .unwrap();
    let intent = ExecutionIntent {
        operation_id: "run-2".to_owned(),
        requested: set(&["production.write"]),
    };

    assert_eq!(
        gate(policy, &[]).authorize(&intent).unwrap(),
        PolicyDecision::Rejected {
            reasons: vec![PolicyRejection::ApprovalRequired {
                capability: "production.write".to_owned()
            }]
        }
    );
}

#[test]
fn rejects_disallowed_and_unapproved_capabilities_deterministically() {
    let policy =
        CapabilityPolicy::new(set(&["production.write"]), set(&["production.write"])).unwrap();
    let intent = ExecutionIntent {
        operation_id: "run-3".to_owned(),
        requested: set(&["filesystem.delete", "production.write"]),
    };

    assert_eq!(
        gate(policy, &[]).authorize(&intent).unwrap(),
        PolicyDecision::Rejected {
            reasons: vec![
                PolicyRejection::CapabilityNotAllowed {
                    capability: "filesystem.delete".to_owned()
                },
                PolicyRejection::ApprovalRequired {
                    capability: "production.write".to_owned()
                }
            ]
        }
    );
}

#[test]
fn accepts_exact_approval_for_risky_capability() {
    let policy =
        CapabilityPolicy::new(set(&["production.write"]), set(&["production.write"])).unwrap();
    let intent = ExecutionIntent {
        operation_id: "run-4".to_owned(),
        requested: set(&["production.write"]),
    };

    assert!(matches!(
        gate(policy, &["production.write"]).authorize(&intent).unwrap(),
        PolicyDecision::Approved { .. }
    ));
}

#[test]
fn fails_closed_when_trusted_approval_source_is_unavailable() {
    let policy =
        CapabilityPolicy::new(set(&["production.write"]), set(&["production.write"])).unwrap();
    let gate = CapabilityGate::new(
        policy,
        StaticApprovals {
            approved: set(&["production.write"]),
            fail: true,
        },
    );
    let intent = ExecutionIntent {
        operation_id: "run-5".to_owned(),
        requested: set(&["production.write"]),
    };

    assert!(matches!(
        gate.authorize(&intent),
        Err(GateError::ApprovalSource(_))
    ));
}

#[test]
fn rejects_invalid_policy_configuration() {
    let error = CapabilityPolicy::new(set(&[]), set(&["production.write"])).unwrap_err();
    assert_eq!(
        error,
        PolicyInputError::ApprovalForDisallowedCapability {
            capability: "production.write".to_owned()
        }
    );
}

#[test]
fn requested_capabilities_are_taken_as_a_set_and_sorted() {
    let policy = CapabilityPolicy::new(set(&["b.write", "a.read"]), set(&[])).unwrap();
    let intent = ExecutionIntent {
        operation_id: "run-6".to_owned(),
        requested: set(&["b.write", "a.read", "b.write"]),
    };
    assert_eq!(
        gate(policy, &[]).authorize(&intent).unwrap(),
        PolicyDecision::Approved {
            capabilities: vec!["a.read".to_owned(), "b.write".to_owned()]
        }
    );
}

#[test]
fn invalid_intent_is_an_input_error() {
    let policy = CapabilityPolicy::new(set(&["context.read"]), set(&[])).unwrap();
    let intent = ExecutionIntent {
        operation_id: "".to_owned(),
        requested: set(&["context.read"]),
    };
    assert!(matches!(
        gate(policy, &[]).authorize(&intent),
        Err(GateError::InvalidInput(PolicyInputError::InvalidId { .. }))
    ));
    let policy = CapabilityPolicy::new(set(&["context.read"]), set(&[])).unwrap();
    let intent = ExecutionIntent {
        operation_id: "run-7".to_owned(),
        requested: set(&["Bad Capability"]),
    };
    assert!(matches!(
        gate(policy, &[]).authorize(&intent),
        Err(GateError::InvalidInput(PolicyInputError::InvalidCapability { .. }))
    ));
}

#[test]
fn invalid_capability_names_are_refused() {
    assert!(capability_is_valid("context.read"));
    assert!(!capability_is_valid("Context.Read"));
    assert!(!capability_is_valid(""));
    let error = CapabilityPolicy::new(set(&["bad name"]), set(&[])).unwrap_err();
    assert_eq!(
        error,
        PolicyInputError::InvalidCapability {
            capability: "bad name".to_owned()
        }
    );
}

#[test]
fn approval_source_error_keeps_a_bounded_code() {
    let long = "x".repeat(200);
    assert_eq!(ApprovalSourceError::new(&long).code.chars().count(), 128);
    assert_eq!(ApprovalSourceError::new("board_unavailable").code, "board_unavailable");
}

#[test]
fn evaluate_rejects_unapproved_and_approves_when_approved() {
    let policy =
        CapabilityPolicy::new(set(&["production.write"]), set(&["production.write"])).unwrap();
    let requested = set(&["production.write"]);
    assert!(matches!(
        evaluate(&policy, &requested, &set(&[])),
        PolicyDecision::Rejected { .. }
    ));
    assert_eq!(
        evaluate(&policy, &requested, &set(&["production.write"])),
        PolicyDecision::Approved {
            capabilities: vec!["production.write".to_owned()]
        }
    );
}
