use summ_server::auth::{ApiKey, AuthPolicy, Generated};
use summ_server::backend::Engine;
use summ_server::banner::{banner, print_auth, reach, reachable, Ip, Reach, Started};

const V6_LOOPBACK: [u16; 8] = [0, 0, 0, 0, 0, 0, 0, 1];

/// The warning is a claim about who can reach the port, so the line between
/// "this machine" and "the network" has to be the bind address and not the mode.
#[test]
fn only_a_loopback_bind_is_unreachable_from_the_network() {
    for (local, shown) in [
        (Ip::V4([127, 0, 0, 1]), "127.0.0.1:3110"),
        (Ip::V4([127, 0, 0, 5]), "127.0.0.5:3110"),
        (Ip::V6(V6_LOOPBACK), "[::1]:3110"),
    ] {
        assert!(
            matches!(reach(local, 3110, shown), Reach::Loopback),
            "{shown} is this machine only"
        );
    }

    let Reach::Network(any) = reach(Ip::V4([0, 0, 0, 0]), 3110, "0.0.0.0:3110") else {
        panic!("every interface is the network");
    };
    assert!(
        any.contains("port 3110") && !any.contains("0.0.0.0"),
        "the unspecified address is not somewhere anything connects to: {any}"
    );

    let Reach::Network(one) = reach(Ip::V4([192, 168, 1, 5]), 3110, "192.168.1.5:3110") else {
        panic!("a routable address is the network");
    };
    assert!(
        one.contains("192.168.1.5:3110"),
        "a specific bind is quoted back to be checked: {one}"
    );

    assert!(
        matches!(
            reach(Ip::V6([0; 8]), 3110, "[::]:3110"),
            Reach::Network(_)
        ),
        "the v6 unspecified address is every interface too"
    );
}

#[test]
fn every_interface_is_reached_through_loopback() {
    assert!(matches!(
        reachable(Ip::V4([0, 0, 0, 0])),
        Ip::V4([127, 0, 0, 1])
    ));
    assert!(matches!(reachable(Ip::V6([0; 8])), Ip::V6(V6_LOOPBACK)));
    assert!(matches!(
        reachable(Ip::V4([10, 0, 0, 7])),
        Ip::V4([10, 0, 0, 7])
    ));
}

#[test]
fn a_generated_key_is_printed_and_a_supplied_one_is_not() {
    let policy = AuthPolicy::Private {
        read: ApiKey::new("supplied"),
        write: ApiKey::new("invented"),
    };
    let lines = print_auth(
        &policy,
        Some(Generated {
            read: false,
            write: true,
        }),
        &Reach::Loopback,
    );
    assert!(lines.contains(&"  write key     invented   (generated)".to_owned()));
    assert!(lines.iter().all(|line| !line.contains("supplied")));
    assert!(lines
        .iter()
        .any(|line| line.contains("printed once and is not stored")));

    let quiet = print_auth(&policy, None, &Reach::Loopback);
    assert_eq!(quiet.len(), 3);
    assert!(quiet.iter().all(|line| !line.contains("invented")));

    let public = print_auth(
        &AuthPolicy::PublicPull {
            write: ApiKey::new("invented"),
        },
        Some(Generated {
            read: false,
            write: true,
        }),
        &Reach::Loopback,
    );
    assert!(public[0].contains("public-pull"));
    assert_eq!(public.len(), 5);
}

#[test]
fn an_open_registry_shouts_only_at_the_network() {
    let local = print_auth(&AuthPolicy::Open, None, &Reach::Loopback);
    assert_eq!(local.len(), 4);
    assert!(local.iter().all(|line| !line.contains("!!")));
    let network = print_auth(
        &AuthPolicy::Open,
        None,
        &Reach::Network("anyone who can reach 10.0.0.7:3110".to_owned()),
    );
    assert_eq!(
        network[1],
        "  !! OPEN REGISTRY - anyone who can reach 10.0.0.7:3110"
    );
}

#[test]
fn the_banner_says_where_and_what() {
    let mut started = Started {
        version: "1.2.3".to_owned(),
        bound: "0.0.0.0:3110".to_owned(),
        reachable: "127.0.0.1:3110".to_owned(),
        data_dir: "/data".to_owned(),
        engine: Engine::Rocks,
        allow_missing_references: false,
        no_pull_counts: false,
    };
    assert_eq!(
        banner(&started),
        vec![
            "summ 1.2.3",
            "  listening on  0.0.0.0:3110",
            "  registry      http://127.0.0.1:3110/v2/",
            "  data dir      /data",
            "  engine        Rocks",
        ]
    );
    started.allow_missing_references = true;
    started.no_pull_counts = true;
    let lines = banner(&started);
    assert_eq!(lines.len(), 7);
    assert_eq!(lines[6], "  pull counts   off (--no-pull-counts)");
}
