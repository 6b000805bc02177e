use prek_python::inferred_retry::{
    build_inferred_retry_constraint, build_retry_constraint, comparator_lower_bound,
    comparator_upper_bound, comparator_version, format_lower_bound_version,
    format_upper_bound_version, format_version_for_semver, infer_from_mentions,
    infer_retry_constraint, infer_retry_constraint_from_error, parse_inferred_lower_bound,
    parse_python_version, retry_candidate, retry_request_for_language_request,
    semver_range_bounds, BoundMention, InferredLowerBound, InferredRetryConstraint,
    InferredUpperBound, VersionPrecision,
};
use prek_python::process::{Error, Output, StatusError};
use prek_python::request::{LanguageRequest, PythonRequest};
use prek_python::version::{Comparator, Op, Release, VersionReq};

fn infer(stderr: &str) -> InferredRetryConstraint {
    infer_retry_constraint(stderr).expect("should infer retry constraint")
}

fn range(raw: &str) -> LanguageRequest {
    let requirement = VersionReq::parse(raw).expect("valid range");
    LanguageRequest::Python(PythonRequest::Range(requirement, raw.to_string()))
}

fn release(major: u64, minor: u64, patch: u64) -> Release {
    Release {
        major,
        minor,
        patch,
    }
}

fn lower(version: Release, inclusive: bool, precision: VersionPrecision) -> InferredLowerBound {
    InferredLowerBound {
        version,
        inclusive,
        precision,
    }
}

fn upper(version: Release, inclusive: bool, precision: VersionPrecision) -> InferredUpperBound {
    InferredUpperBound {
        version,
        inclusive,
        precision,
    }
}

#[test]
fn inferred_retry_infer_retry_constraint_parses_python_mismatch() {
    let stderr = "× No solution found when resolving dependencies:\n╰─▶ Because the current Python version (3.9.6) does not satisfy Python>=3.10 and example==0.0.0 depends on Python>=3.10, we can conclude that example==0.0.0 cannot be used.\n";

    let inferred = infer(stderr);
    assert_eq!(inferred.request(), ">=3.10,<3.11");
}

#[test]
fn inferred_retry_infer_retry_constraint_parses_wrapped_python_mismatch() {
    let stderr = "× No solution found when resolving dependencies:\n╰─▶ Because the current Python version (3.9.6) does not satisfy\n      Python>=3.10 and example==0.0.0 depends on Python>=3.10, we can conclude that example==0.0.0 cannot be used.\n";

    let inferred = infer(stderr);
    assert_eq!(inferred.request(), ">=3.10,<3.11");
}

#[test]
fn inferred_retry_infer_retry_constraint_uses_next_minor_cap_for_major_only_bound() {
    let stderr = "× No solution found when resolving dependencies:\n╰─▶ Because the current Python version (2.7.18) does not satisfy Python>=3 and example==0.0.0 depends on Python>=3, we can conclude that example==0.0.0 cannot be used.\n";

    let inferred = infer(stderr);
    assert_eq!(inferred.request(), ">=3,<3.1");
}

#[test]
fn inferred_retry_infer_retry_constraint_uses_strictest_lower_bound() {
    let stderr = "× No solution found when resolving dependencies:\n╰─▶ Because the current Python version (3.9.6) does not satisfy Python>=3.10 and package-a==1.0.0 depends on Python>=3.10, we can conclude that package-a==1.0.0 cannot be used.\n    Because the current Python version (3.9.6) does not satisfy Python>3.11 and package-b==2.0.0 depends on Python>3.11, we can conclude that package-b==2.0.0 cannot be used.\n";

    let inferred = infer(stderr);
    assert_eq!(inferred.request(), ">3.11,<3.12");
}

#[test]
fn inferred_retry_infer_retry_constraint_ignores_non_python_resolution_errors() {
    let stderr = "× No solution found when resolving dependencies:\n╰─▶ Because package-a==1.0.0 depends on package-b==1.0.0 and package-b==2.0.0, we can conclude that package-a==1.0.0 cannot be used.\n";

    assert!(infer_retry_constraint(stderr).is_none());
}

#[test]
fn inferred_retry_retry_request_respects_configured_python_request() {
    let inferred = infer(
        "Because the current Python version (3.9.6) does not satisfy Python>=3.10 and x depends on Python>=3.10.",
    );

    let any = LanguageRequest::Any { system_only: false };
    assert_eq!(
        retry_request_for_language_request(&any, &inferred),
        Some(">=3.10,<3.11".to_string())
    );

    let system = LanguageRequest::Any { system_only: true };
    assert_eq!(retry_request_for_language_request(&system, &inferred), None);

    let compatible_major = LanguageRequest::Python(PythonRequest::Major(3));
    assert_eq!(
        retry_request_for_language_request(&compatible_major, &inferred),
        Some(">=3.10,<3.11".to_string())
    );

    // "3.9"
    let incompatible_pin = LanguageRequest::Python(PythonRequest::MajorMinor(3, 9));
    assert_eq!(
        retry_request_for_language_request(&incompatible_pin, &inferred),
        None
    );

    let compatible_range = range(">=3.10,<3.10.5");
    assert_eq!(
        retry_request_for_language_request(&compatible_range, &inferred),
        Some(">=3.10,<3.10.5".to_string())
    );

    let incompatible_range = range("<3.10");
    assert_eq!(
        retry_request_for_language_request(&incompatible_range, &inferred),
        None
    );
}

#[test]
fn inferred_retry_retry_request_treats_major_minor_as_range_for_exclusive_bound() {
    let inferred = infer(
        "Because the current Python version (3.9.6) does not satisfy Python>3.10 and x depends on Python>3.10.",
    );

    // "3.10"
    let request = LanguageRequest::Python(PythonRequest::MajorMinor(3, 10));
    assert_eq!(
        retry_request_for_language_request(&request, &inferred),
        Some(">3.10,<3.11".to_string())
    );
}

#[test]
fn inferred_retry_retry_request_keeps_explicit_patch_pin() {
    let inferred = infer(
        "Because the current Python version (3.9.6) does not satisfy Python>=3.10 and x depends on Python>=3.10.",
    );

    // "3.10.5"
    let request = LanguageRequest::Python(PythonRequest::MajorMinorPatch(3, 10, 5));
    assert_eq!(
        retry_request_for_language_request(&request, &inferred),
        Some("3.10.5".to_string())
    );
}

#[test]
fn inferred_retry_retry_request_refuses_unsupported_range_intersection() {
    let inferred = infer(
        "Because the current Python version (3.9.6) does not satisfy Python>=3.10 and x depends on Python>=3.10.",
    );

    let request = range("^3.10");
    assert_eq!(
        retry_request_for_language_request(&request, &inferred),
        None
    );
}

#[test]
fn python_infer_retry_constraint_parses_python_mismatch() {
    let stderr = "× No solution found when resolving dependencies:\n╰─▶ Because the current Python version (3.9.6) does not satisfy Python>=3.10 and example==0.0.0 depends on Python>=3.10, we can conclude that example==0.0.0 cannot be used.\n";

    let inferred = infer(stderr);
    assert_eq!(inferred.request(), ">=3.10,<3.11");
}

#[test]
fn python_infer_retry_constraint_parses_wrapped_python_mismatch() {
    let stderr = "× No solution found when resolving dependencies:\n╰─▶ Because the current Python version (3.9.6) does not satisfy\n      Python>=3.10 and example==0.0.0 depends on Python>=3.10, we can conclude that example==0.0.0 cannot be used.\n";

    let inferred = infer(stderr);
    assert_eq!(inferred.request(), ">=3.10,<3.11");
}

#[test]
fn python_infer_retry_constraint_uses_next_minor_cap_for_major_only_bound() {
    let stderr = "× No solution found when resolving dependencies:\n╰─▶ Because the current Python version (2.7.18) does not satisfy Python>=3 and example==0.0.0 depends on Python>=3, we can conclude that example==0.0.0 cannot be used.\n";

    let inferred = infer(stderr);
    assert_eq!(inferred.request(), ">=3,<3.1");
}

#[test]
fn python_infer_retry_constraint_uses_strictest_lower_bound() {
    let stderr = "× No solution found when resolving dependencies:\n╰─▶ Because the current Python version (3.9.6) does not satisfy Python>=3.10 and package-a==1.0.0 depends on Python>=3.10, we can conclude that package-a==1.0.0 cannot be used.\n    Because the current Python version (3.9.6) does not satisfy Python>3.11 and package-b==2.0.0 depends on Python>3.11, we can conclude that package-b==2.0.0 cannot be used.\n";

    let inferred = infer(stderr);
    assert_eq!(inferred.request(), ">3.11,<3.12");
}

#[test]
fn python_infer_retry_constraint_ignores_non_python_resolution_errors() {
    let stderr = "× No solution found when resolving dependencies:\n╰─▶ Because package-a==1.0.0 depends on package-b==1.0.0 and package-b==2.0.0, we can conclude that package-a==1.0.0 cannot be used.\n";

    assert!(infer_retry_constraint(stderr).is_none());
}

#[test]
fn python_retry_request_respects_configured_python_request() {
    let inferred = infer(
        "Because the current Python version (3.9.6) does not satisfy Python>=3.10 and x depends on Python>=3.10.",
    );

    let any = LanguageRequest::Any { system_only: false };
    assert_eq!(
        retry_request_for_language_request(&any, &inferred),
        Some(">=3.10,<3.11".to_string())
    );

    let system = LanguageRequest::Any { system_only: true };
    assert_eq!(retry_request_for_language_request(&system, &inferred), None);

    let compatible_major = LanguageRequest::Python(PythonRequest::Major(3));
    assert_eq!(
        retry_request_for_language_request(&compatible_major, &inferred),
        Some(">=3.10,<3.11".to_string())
    );

    // "3.9"
    let incompatible_pin = LanguageRequest::Python(PythonRequest::MajorMinor(3, 9));
    assert_eq!(
        retry_request_for_language_request(&incompatible_pin, &inferred),
        None
    );

    let compatible_range = range(">=3.10,<3.10.5");
    assert_eq!(
        retry_request_for_language_request(&compatible_range, &inferred),
        Some(">=3.10,<3.10.5".to_string())
    );

    let incompatible_range = range("<3.10");
    assert_eq!(
        retry_request_for_language_request(&incompatible_range, &inferred),
        None
    );
}

#[test]
fn python_retry_request_treats_major_minor_as_range_for_exclusive_bound() {
    let inferred = infer(
        "Because the current Python version (3.9.6) does not satisfy Python>3.10 and x depends on Python>3.10.",
    );

    // "3.10"
    let request = LanguageRequest::Python(PythonRequest::MajorMinor(3, 10));
    assert_eq!(
        retry_request_for_language_request(&request, &inferred),
        Some(">3.10,<3.11".to_string())
    );
}

#[test]
fn python_retry_request_keeps_explicit_patch_pin() {
    let inferred = infer(
        "Because the current Python version (3.9.6) does not satisfy Python>=3.10 and x depends on Python>=3.10.",
    );

    // "3.10.5"
    let request = LanguageRequest::Python(PythonRequest::MajorMinorPatch(3, 10, 5));
    assert_eq!(
        retry_request_for_language_request(&request, &inferred),
        Some("3.10.5".to_string())
    );
}

#[test]
fn python_retry_request_refuses_unsupported_range_intersection() {
    let inferred = infer(
        "Because the current Python version (3.9.6) does not satisfy Python>=3.10 and x depends on Python>=3.10.",
    );

    let request = range("^3.10");
    assert_eq!(
        retry_request_for_language_request(&request, &inferred),
        None
    );
}

#[test]
fn operators_follow_inclusiveness() {
    let at = release(3, 10, 0);
    assert_eq!(lower(at, true, VersionPrecision::Major).operator(), ">=");
    assert_eq!(lower(at, false, VersionPrecision::Major).operator(), ">");
    assert_eq!(upper(at, true, VersionPrecision::Major).operator(), "<=");
    assert_eq!(upper(at, false, VersionPrecision::Major).operator(), "<");
}

#[test]
fn strictness_goes_by_version_then_inclusiveness() {
    let p = VersionPrecision::MajorMinor;
    let open = lower(release(3, 10, 0), false, p);
    let closed = lower(release(3, 10, 0), true, p);
    let later = lower(release(3, 11, 0), true, p);
    assert!(open.is_stricter_than(&closed));
    assert!(!closed.is_stricter_than(&open));
    assert!(!closed.is_stricter_than(&closed));
    assert!(later.is_stricter_than(&open));
    assert!(!open.is_stricter_than(&later));

    let below = upper(release(3, 10, 0), false, p);
    let up_to = upper(release(3, 10, 0), true, p);
    let next = upper(release(3, 10, 1), false, p);
    assert!(below.is_stricter_than(&up_to));
    assert!(!up_to.is_stricter_than(&below));
    assert!(up_to.is_stricter_than(&next));
    assert!(!next.is_stricter_than(&up_to));
}

#[test]
fn python_versions_have_one_to_three_numbers() {
    assert_eq!(
        parse_python_version("3"),
        Some((release(3, 0, 0), VersionPrecision::Major))
    );
    assert_eq!(
        parse_python_version("3.10"),
        Some((release(3, 10, 0), VersionPrecision::MajorMinor))
    );
    assert_eq!(
        parse_python_version("3.10.5"),
        Some((release(3, 10, 5), VersionPrecision::MajorMinorPatch))
    );
    assert_eq!(
        parse_python_version("+3.010"),
        Some((release(3, 10, 0), VersionPrecision::MajorMinor))
    );
    assert_eq!(
        parse_python_version("18446744073709551615"),
        Some((release(u64::MAX, 0, 0), VersionPrecision::Major))
    );
    assert_eq!(parse_python_version("18446744073709551616"), None);
    assert_eq!(parse_python_version("3.10.5.1"), None);
    assert_eq!(parse_python_version(""), None);
    assert_eq!(parse_python_version("3."), None);
    assert_eq!(parse_python_version(".3"), None);
    assert_eq!(parse_python_version("3.x"), None);
    assert_eq!(parse_python_version("3.-1"), None);
    assert_eq!(parse_python_version("3 "), None);
    assert_eq!(parse_python_version("+"), None);
}

#[test]
fn lower_bounds_have_one_of_two_operators() {
    let p = VersionPrecision::MajorMinor;
    assert_eq!(
        parse_inferred_lower_bound(">=", "3.10"),
        Some(lower(release(3, 10, 0), true, p))
    );
    assert_eq!(
        parse_inferred_lower_bound(">", "3.10"),
        Some(lower(release(3, 10, 0), false, p))
    );
    assert_eq!(parse_inferred_lower_bound("<", "3.10"), None);
    assert_eq!(parse_inferred_lower_bound("", "3.10"), None);
    assert_eq!(parse_inferred_lower_bound(">=", "three"), None);
}

#[test]
fn bounds_are_written_with_the_numbers_they_had() {
    let at = release(3, 10, 5);
    assert_eq!(
        format_lower_bound_version(&lower(at, true, VersionPrecision::Major)),
        "3"
    );
    assert_eq!(
        format_lower_bound_version(&lower(at, true, VersionPrecision::MajorMinor)),
        "3.10"
    );
    assert_eq!(
        format_upper_bound_version(&upper(at, true, VersionPrecision::MajorMinorPatch)),
        "3.10.5"
    );
    assert_eq!(
        format_upper_bound_version(&upper(at, true, VersionPrecision::Major)),
        "3"
    );
    assert_eq!(format_version_for_semver(&release(0, 0, 0)), "0.0.0");
    assert_eq!(
        format_version_for_semver(&release(u64::MAX, 10, 100)),
        "18446744073709551615.10.100"
    );
}

#[test]
fn a_bound_that_is_written_is_read_back() {
    for precision in [
        VersionPrecision::Major,
        VersionPrecision::MajorMinor,
        VersionPrecision::MajorMinorPatch,
    ] {
        let version = match precision {
            VersionPrecision::Major => release(3, 0, 0),
            VersionPrecision::MajorMinor => release(3, 10, 0),
            VersionPrecision::MajorMinorPatch => release(3, 10, 5),
        };
        let bound = lower(version, false, precision);
        assert_eq!(
            parse_inferred_lower_bound(bound.operator(), &format_lower_bound_version(&bound)),
            Some(bound)
        );
    }
}

#[test]
fn candidates_are_the_smallest_releases() {
    let p = VersionPrecision::MajorMinorPatch;
    assert_eq!(
        retry_candidate(&lower(release(3, 10, 5), true, p)),
        Some(release(3, 10, 5))
    );
    assert_eq!(
        retry_candidate(&lower(release(3, 10, 5), false, p)),
        Some(release(3, 10, 6))
    );
    assert_eq!(
        retry_candidate(&lower(release(3, 10, u64::MAX), false, p)),
        None
    );
}

#[test]
fn constraints_need_a_release_between_the_bounds() {
    let p = VersionPrecision::MajorMinorPatch;
    let from = lower(release(3, 10, 5), true, p);
    let built = build_retry_constraint(from, upper(release(3, 10, 5), true, p)).unwrap();
    assert_eq!(built.request(), ">=3.10.5,<=3.10.5");
    assert_eq!(built.candidate(), release(3, 10, 5));
    assert_eq!(
        built.requirement(),
        &VersionReq::parse(">=3.10.5,<=3.10.5").unwrap()
    );
    assert!(build_retry_constraint(from, upper(release(3, 10, 5), false, p)).is_none());
    let above = lower(release(3, 10, 5), false, p);
    assert!(build_retry_constraint(above, upper(release(3, 10, 6), false, p)).is_none());
    assert!(build_retry_constraint(above, upper(release(3, 10, 6), true, p)).is_some());
    assert!(build_retry_constraint(
        lower(release(3, 10, u64::MAX), false, p),
        upper(release(4, 0, 0), false, p)
    )
    .is_none());
}

#[test]
fn inferred_constraints_are_capped_at_the_next_minor() {
    let p = VersionPrecision::MajorMinorPatch;
    let built = build_inferred_retry_constraint(&lower(release(3, 10, 5), true, p)).unwrap();
    assert_eq!(built.request(), ">=3.10.5,<3.11");
    assert_eq!(built.lower(), lower(release(3, 10, 5), true, p));
    assert_eq!(built.upper().version, release(3, 11, 0));
    assert!(!built.upper().inclusive);
    assert!(build_inferred_retry_constraint(&lower(release(3, u64::MAX, 0), true, p)).is_none());
}

#[test]
fn mentions_are_folded_to_the_strictest() {
    let mention = |op: &str, version: &str| BoundMention {
        op: op.to_string(),
        version: version.to_string(),
    };
    let inferred = infer_from_mentions(&vec![
        mention(">=", "3.9"),
        mention(">=", "99999999999999999999"),
        mention(">", "3.10"),
        mention(">=", "3.10"),
        mention("<", "3.12"),
    ])
    .unwrap();
    assert_eq!(inferred.request(), ">3.10,<3.11");
    assert!(infer_from_mentions(&vec![]).is_none());
    assert!(infer_from_mentions(&vec![mention("<", "3.12")]).is_none());
    // Of equally strict bounds the first keeps its notation.
    let first = infer_from_mentions(&vec![mention(">=", "3.10.0"), mention(">=", "3.10")]).unwrap();
    assert_eq!(first.request(), ">=3.10.0,<3.11");
}

#[test]
fn mentions_allow_white_space_around_the_operator() {
    let inferred = infer("does not satisfy \t Python >=\n 3.10.4.7 and so on");
    assert_eq!(inferred.request(), ">=3.10.4,<3.11");
    let tight = infer("does not satisfy Python>3and");
    assert_eq!(tight.request(), ">3,<3.1");
    assert!(infer_retry_constraint("does not satisfyPython>=3.10").is_none());
    assert!(infer_retry_constraint("does not satisfy Python==3.10").is_none());
    assert!(infer_retry_constraint("does not satisfy Python>=x").is_none());
    assert!(infer_retry_constraint("satisfies Python>=3.10").is_none());
    assert!(infer_retry_constraint("does not satisfy Python> =3.10").is_none());
    assert!(infer_retry_constraint("does not satisfy Ruby>=3.10").is_none());
    assert!(infer_retry_constraint("does not satisfy Python").is_none());
    // The words may stand without a bound, before a mention and after it.
    let among = infer("does not satisfy does not satisfy Python>=3.9., does not satisfy");
    assert_eq!(among.request(), ">=3.9,<3.10");
}

#[test]
fn every_mention_counts() {
    let first = infer("does not satisfy Python>=3.9, does not satisfy Python>=3.8");
    assert_eq!(first.request(), ">=3.9,<3.10");
    let last = infer("does not satisfy Python>=3.9does not satisfy Python>3.9");
    assert_eq!(last.request(), ">3.9,<3.10");
    // Of equally strict bounds the first keeps its notation.
    let notation = infer("does not satisfy Python>=3.9.0\ndoes not satisfy Python>=3.9");
    assert_eq!(notation.request(), ">=3.9.0,<3.10");
    // A number that is too large is passed over.
    let readable =
        infer("does not satisfy Python>=99999999999999999999 does not satisfy Python>=3.9");
    assert_eq!(readable.request(), ">=3.9,<3.10");
}

#[test]
fn constraints_are_inferred_from_captured_output_alone() {
    let failed = |stderr: Option<&[u8]>| Error::Status {
        error: StatusError {
            output: stderr.map(|stderr| Output {
                stdout: vec![],
                stderr: stderr.to_vec(),
            }),
        },
    };
    let text = "does not satisfy Python>=3.12 \u{2014}".as_bytes();
    assert_eq!(
        infer_retry_constraint_from_error(&failed(Some(text)))
            .unwrap()
            .request(),
        ">=3.12,<3.13"
    );
    let broken: &[u8] = b"\xff does not satisfy Python>=3.12";
    assert_eq!(
        infer_retry_constraint_from_error(&failed(Some(broken)))
            .unwrap()
            .request(),
        ">=3.12,<3.13"
    );
    assert!(infer_retry_constraint_from_error(&failed(None)).is_none());
    let other = Error::Other {
        message: "does not satisfy Python>=3.12".to_string(),
    };
    assert!(infer_retry_constraint_from_error(&other).is_none());
}

#[test]
fn comparators_are_taken_as_bounds() {
    let comparator = |op, minor, patch| Comparator {
        op,
        major: 3,
        minor,
        patch,
        pre: String::new(),
    };
    let partial = comparator(Op::GreaterEq, Some(10), None);
    assert_eq!(
        comparator_version(&partial),
        Some((release(3, 10, 0), VersionPrecision::MajorMinor))
    );
    assert_eq!(
        comparator_version(&comparator(Op::Exact, None, None)),
        Some((release(3, 0, 0), VersionPrecision::Major))
    );
    assert_eq!(
        comparator_version(&comparator(Op::Exact, None, Some(1))),
        None
    );
    assert_eq!(
        comparator_lower_bound(&partial),
        Some(lower(release(3, 10, 0), true, VersionPrecision::MajorMinor))
    );
    assert_eq!(
        comparator_upper_bound(&comparator(Op::Less, Some(10), Some(4))),
        Some(upper(
            release(3, 10, 4),
            false,
            VersionPrecision::MajorMinorPatch
        ))
    );
    assert_eq!(
        comparator_upper_bound(&comparator(Op::LessEq, None, Some(4))),
        None
    );
}

#[test]
fn ranges_keep_their_strictest_bounds() {
    let bounds = |raw: &str| semver_range_bounds(&VersionReq::parse(raw).unwrap());
    let p = VersionPrecision::MajorMinor;
    assert_eq!(
        bounds(">=3.8, >3.9, >=3.9, <4, <=3.12"),
        Some((
            Some(lower(release(3, 9, 0), false, p)),
            Some(upper(release(3, 12, 0), true, p))
        ))
    );
    assert_eq!(bounds("*"), Some((None, None)));
    assert_eq!(bounds(">=3.8, ~3.9"), None);
    assert_eq!(bounds("=3.9.1"), None);
    assert_eq!(bounds("3.*"), None);
}

#[test]
fn ranges_are_intersected_with_what_was_inferred() {
    let inferred = infer("does not satisfy Python>=3.10");
    let request = |raw: &str| retry_request_for_language_request(&range(raw), &inferred);
    assert_eq!(request(">=3.8"), Some(">=3.10,<3.11".to_string()));
    assert_eq!(request(">3.10"), Some(">3.10,<3.11".to_string()));
    assert_eq!(request("<=3.10"), Some(">=3.10,<=3.10".to_string()));
    assert_eq!(request(">=3.10.2,<4"), Some(">=3.10.2,<3.11".to_string()));
    assert_eq!(request(">=3.11"), None);
    assert_eq!(request("*"), Some(">=3.10,<3.11".to_string()));
}

#[test]
fn pins_outside_of_what_was_inferred_are_not_retried() {
    let inferred = infer("does not satisfy Python>=3.10");
    let request = |request| {
        retry_request_for_language_request(&LanguageRequest::Python(request), &inferred)
    };
    assert_eq!(request(PythonRequest::MajorMinorPatch(3, 9, 9)), None);
    assert_eq!(request(PythonRequest::MajorMinorPatch(3, 11, 0)), None);
    assert_eq!(request(PythonRequest::Major(2)), None);
    assert_eq!(
        request(PythonRequest::Any),
        Some(">=3.10,<3.11".to_string())
    );
    assert_eq!(
        retry_request_for_language_request(&LanguageRequest::Other, &inferred),
        None
    );
}

#[test]
fn requirements_are_read_part_by_part() {
    let read = VersionReq::parse(">=3.10, <3.10.5-rc.1").unwrap();
    assert_eq!(read.comparators.len(), 2);
    assert_eq!(read.comparators[0].op, Op::GreaterEq);
    assert_eq!(read.comparators[0].minor, Some(10));
    assert_eq!(read.comparators[0].patch, None);
    assert_eq!(read.comparators[1].op, Op::Less);
    assert_eq!(read.comparators[1].pre, "rc.1");
    let ops: Vec<Op> = VersionReq::parse("=1, >1, >=1, <1, <=1, ~1, ^1, 1.*")
        .unwrap()
        .comparators
        .iter()
        .map(|c| c.op)
        .collect();
    assert_eq!(
        ops,
        vec![
            Op::Exact,
            Op::Greater,
            Op::GreaterEq,
            Op::Less,
            Op::LessEq,
            Op::Tilde,
            Op::Caret,
            Op::Wildcard
        ]
    );
    assert!(VersionReq::parse("three").is_none());
}
