use navigator_bootstrap::poll::{
    fetch_and_store_cli_mtls, fetch_cli_mtls_bundle, wait_for_cli_mtls, wait_for_cluster_ready, wait_for_exit_code,
    wait_for_kubeconfig, Health, HealthFailure, Poll, SecretAnswer, SecretFailure, Verdict,
    CLUSTER_REST_SECONDS, EXIT_CODE_ATTEMPTS, EXIT_CODE_REST_MILLIS, HEALTH_ATTEMPTS,
    HEALTH_TIMED_OUT, KUBECONFIG_ATTEMPTS, KUBECONFIG_TIMED_OUT, SECRET_ATTEMPTS,
};

/// What asking comes to, with the number of questions and of rests.
fn ask<R>(attempts: u32, mut answer: impl FnMut(u32) -> Verdict<R>) -> (Poll<R>, u32, u32) {
    let mut poll = Poll::start();
    let (mut asked, mut rested) = (0, 0);
    loop {
        match poll {
            Poll::Ask(attempt) => {
                assert_eq!(attempt, asked);
                asked += 1;
                poll = poll.answered(answer(attempt));
            }
            Poll::Rest(_) => {
                rested += 1;
                poll = poll.rested(attempts);
            }
            end => return (end, asked, rested),
        }
    }
}

const GOOD: &str = "apiVersion: v1\nclusters: []\n";

#[test]
fn first_valid_kubeconfig_is_taken() {
    let (end, asked, rested) = ask(KUBECONFIG_ATTEMPTS, |attempt| {
        let output = match attempt {
            0 => None,
            1 => Some("cat: no such file"),
            _ => Some(GOOD),
        };
        wait_for_kubeconfig(attempt, output)
    });
    assert!(matches!(end, Poll::Accepted));
    assert_eq!((asked, rested), (3, 2));
}

#[test]
fn kubeconfig_in_hand_is_the_first_valid_one() {
    let outputs = [None, Some(""), Some("apiVersion: clusters: first"), Some(GOOD)];
    let mut in_hand = None;
    let (end, asked, _) = ask(KUBECONFIG_ATTEMPTS, |attempt| {
        in_hand = outputs[attempt as usize];
        wait_for_kubeconfig(attempt, in_hand)
    });
    assert!(matches!(end, Poll::Accepted));
    assert_eq!(asked, 3);
    assert_eq!(in_hand, Some("apiVersion: clusters: first"));
}

#[test]
fn kubeconfig_may_come_with_the_last_attempt() {
    let (end, asked, _) = ask(KUBECONFIG_ATTEMPTS, |attempt| {
        wait_for_kubeconfig(attempt, if attempt == 29 { Some(GOOD) } else { None })
    });
    assert!(matches!(end, Poll::Accepted));
    assert_eq!(asked, 30);
}

#[test]
fn kubeconfig_does_not_come() {
    let (end, asked, rested) = ask(KUBECONFIG_ATTEMPTS, |attempt| {
        wait_for_kubeconfig(attempt, Some(""))
    });
    assert!(matches!(end, Poll::TimedOut));
    assert_eq!((asked, rested), (30, 30));
    let (end, asked, rested) = ask(KUBECONFIG_ATTEMPTS, |attempt| {
        wait_for_kubeconfig(attempt, None)
    });
    assert!(matches!(end, Poll::Rejected(())));
    assert_eq!((asked, rested), (30, 29));
    assert_eq!(KUBECONFIG_TIMED_OUT, "timed out waiting for kubeconfig");
    assert_eq!(CLUSTER_REST_SECONDS, 2);
}

#[test]
fn cluster_becomes_healthy() {
    let (end, asked, _) = ask(HEALTH_ATTEMPTS, |attempt| {
        let health = match attempt {
            0 => Some(Health::Starting),
            1 => Some(Health::Unhealthy),
            2 => None,
            3 => Some(Health::NoCheck),
            _ => Some(Health::Healthy),
        };
        wait_for_cluster_ready(attempt, health)
    });
    assert!(matches!(end, Poll::Accepted));
    assert_eq!(asked, 5);
}

#[test]
fn cluster_without_health_check_is_refused_at_once() {
    for health in [None, Some(Health::NoCheck), Some(Health::Empty)] {
        let (end, asked, _) = ask(HEALTH_ATTEMPTS, |attempt| {
            wait_for_cluster_ready(attempt, health)
        });
        match end {
            Poll::Rejected(why) => {
                assert_eq!(why, HealthFailure::NoHealthCheck);
                assert_eq!(
                    why.message(),
                    "cluster container does not expose a health check"
                );
            }
            _ => panic!("no health check"),
        }
        assert_eq!(asked, 1);
    }
}

#[test]
fn cluster_stays_unhealthy() {
    let (end, asked, rested) = ask(HEALTH_ATTEMPTS, |attempt| {
        wait_for_cluster_ready(attempt, Some(Health::Unhealthy))
    });
    match end {
        Poll::Rejected(why) => {
            assert_eq!(why, HealthFailure::Unhealthy);
            assert_eq!(why.message(), "cluster health check reported unhealthy");
        }
        _ => panic!("unhealthy"),
    }
    assert_eq!((asked, rested), (180, 179));
    let (end, asked, rested) = ask(HEALTH_ATTEMPTS, |attempt| {
        wait_for_cluster_ready(attempt, Some(Health::Starting))
    });
    assert!(matches!(end, Poll::TimedOut));
    assert_eq!((asked, rested), (180, 180));
    assert_eq!(HEALTH_TIMED_OUT, "timed out waiting for cluster health check");
}

#[test]
fn certificate_is_waited_for() {
    let (end, asked, _) = ask(SECRET_ATTEMPTS, |attempt| {
        let answer = if attempt < 4 {
            SecretAnswer::Missing
        } else {
            SecretAnswer::Bundle
        };
        wait_for_cli_mtls(attempt, answer)
    });
    assert!(matches!(end, Poll::Accepted));
    assert_eq!(asked, 5);
    assert!(fetch_and_store_cli_mtls(false).is_none());
    assert!(matches!(fetch_and_store_cli_mtls(true), Some(Poll::Ask(0))));
}

#[test]
fn certificate_does_not_come() {
    let (end, asked, rested) = ask(SECRET_ATTEMPTS, |attempt| {
        wait_for_cli_mtls(attempt, SecretAnswer::Missing)
    });
    match end {
        Poll::Rejected(why) => {
            assert_eq!(why, SecretFailure::TimedOut);
            assert_eq!(
                why.message(),
                "timed out waiting for CLI mTLS secret navigator-cli-client"
            );
        }
        _ => panic!("missing"),
    }
    assert_eq!((asked, rested), (90, 89));
    let (end, asked, _) = ask(SECRET_ATTEMPTS, |attempt| {
        wait_for_cli_mtls(attempt, SecretAnswer::Failed)
    });
    match end {
        Poll::Rejected(why) => {
            assert_eq!(why, SecretFailure::Failed);
            assert_eq!(
                why.message(),
                "failed to fetch CLI mTLS secret navigator-cli-client"
            );
        }
        _ => panic!("failed"),
    }
    assert_eq!(asked, 1);
}

#[test]
fn exit_code_is_waited_for() {
    let mut in_hand = None;
    let (end, asked, _) = ask(EXIT_CODE_ATTEMPTS, |attempt| {
        in_hand = if attempt < 3 { None } else { Some(i64::from(attempt)) };
        wait_for_exit_code(in_hand)
    });
    assert!(matches!(end, Poll::Accepted));
    assert_eq!(asked, 4);
    assert_eq!(in_hand, Some(3));
    let (end, asked, rested) = ask(EXIT_CODE_ATTEMPTS, |_| wait_for_exit_code(None));
    assert!(matches!(end, Poll::TimedOut));
    assert_eq!((asked, rested), (20, 20));
    assert_eq!(EXIT_CODE_REST_MILLIS, 200);
}

#[test]
fn certificate_is_found_in_what_was_printed() {
    let (answer, found) = fetch_cli_mtls_bundle(Some("YQ==\nYg==\nYw=="));
    assert_eq!(answer, SecretAnswer::Bundle);
    assert_eq!(found.unwrap().unwrap().cert, b"b".to_vec());
    let (answer, found) = fetch_cli_mtls_bundle(Some("not found"));
    assert_eq!(answer, SecretAnswer::Missing);
    assert!(matches!(found, Ok(None)));
    let (answer, found) = fetch_cli_mtls_bundle(Some("YQ==\n*\nYw=="));
    assert_eq!(answer, SecretAnswer::Failed);
    assert!(found.is_err());
    let (answer, found) = fetch_cli_mtls_bundle(None);
    assert_eq!(answer, SecretAnswer::Failed);
    assert!(matches!(found, Ok(None)));
}
