//! What the server prints when it has started.
//!
//! Printed, not logged: this is the answer to "did it start, and where?", so it
//! must survive any log filter.

use vstd::prelude::*;
use vstd::string::*;

use crate::auth;
use crate::auth::{AuthPolicy, AuthPolicyView, Generated};
use crate::backend::Engine;
use crate::text;

verus! {

// ---- addresses ---------------------------------------------------------------

/// An IP address.
#[derive(Debug, Clone, Copy)]
pub enum Ip {
    V4([u8; 4]),
    V6([u16; 8]),
}

/// `127.0.0.0/8`, or `::1`.
pub open spec fn is_loopback(ip: Ip) -> bool {
    match ip {
        Ip::V4(octets) => octets@[0] == 127,
        Ip::V6(segments) => segments@ == seq![0u16, 0, 0, 0, 0, 0, 0, 1],
    }
}

/// `0.0.0.0`, or `::`.
pub open spec fn is_unspecified(ip: Ip) -> bool {
    match ip {
        Ip::V4(octets) => octets@ == seq![0u8, 0, 0, 0],
        Ip::V6(segments) => segments@ == seq![0u16, 0, 0, 0, 0, 0, 0, 0],
    }
}

/// The loopback address of the same family.
pub open spec fn loopback_of(ip: Ip) -> Ip {
    match ip {
        Ip::V4(_) => Ip::V4([127, 0, 0, 1]),
        Ip::V6(_) => Ip::V6([0, 0, 0, 0, 0, 0, 0, 1]),
    }
}

/// Whether all segments but the last are zero.
fn leading_zeros(segments: &[u16; 8]) -> (r: bool)
    ensures
        r <==> forall|i: int| 0 <= i < 7 ==> #[trigger] segments@[i] == 0,
{
    let mut i: usize = 0;
    while i < 7
        invariant
            i <= 7,
            forall|j: int| 0 <= j < i ==> #[trigger] segments@[j] == 0,
        decreases 7 - i,
    {
        if segments[i] != 0 {
            return false;
        }
        i = i + 1;
    }
    true
}

fn loopback(ip: &Ip) -> (r: bool)
    ensures
        r == is_loopback(*ip),
{
    match ip {
        Ip::V4(octets) => octets[0] == 127,
        Ip::V6(segments) => {
            let r = leading_zeros(segments) && segments[7] == 1;
            proof {
                let one = seq![0u16, 0, 0, 0, 0, 0, 0, 1];
                if r {
                    assert(segments@ =~= one);
                } else if segments@ == one {
                    assert(forall|i: int| 0 <= i < 7 ==> #[trigger] segments@[i] == one[i]);
                }
            }
            r
        },
    }
}

fn unspecified(ip: &Ip) -> (r: bool)
    ensures
        r == is_unspecified(*ip),
{
    match ip {
        Ip::V4(octets) => {
            let r = octets[0] == 0 && octets[1] == 0 && octets[2] == 0 && octets[3] == 0;
            proof {
                let zero = seq![0u8, 0, 0, 0];
                if r {
                    assert(octets@ =~= zero);
                } else if octets@ == zero {
                    assert(zero[0] == 0 && zero[1] == 0 && zero[2] == 0 && zero[3] == 0);
                }
            }
            r
        },
        Ip::V6(segments) => {
            let r = leading_zeros(segments) && segments[7] == 0;
            proof {
                let zero = seq![0u16, 0, 0, 0, 0, 0, 0, 0];
                if r {
                    assert(segments@ =~= zero);
                } else if segments@ == zero {
                    assert(forall|i: int| 0 <= i < 7 ==> #[trigger] segments@[i] == zero[i]);
                }
            }
            r
        },
    }
}

/// Who can reach the listener.
#[derive(Debug)]
pub enum Reach {
    /// Bound to loopback: this machine only.
    Loopback,
    /// Bound anywhere else, with the phrase naming who that is.
    Network(String),
}

/// Who can reach the listener, the phrase as characters.
pub enum ReachView {
    Loopback,
    Network(Seq<char>),
}

impl View for Reach {
    type V = ReachView;

    open spec fn view(&self) -> ReachView {
        match self {
            Reach::Loopback => ReachView::Loopback,
            Reach::Network(who) => ReachView::Network(who@),
        }
    }
}

/// Who can reach a listener on `ip` and `port`, which is shown as `shown`.
pub open spec fn reach_of(ip: Ip, port: u16, shown: Seq<char>) -> ReachView {
    if is_loopback(ip) {
        ReachView::Loopback
    } else if is_unspecified(ip) {
        ReachView::Network(
            "anyone who can reach this machine on port "@ + text::decimal(port as nat),
        )
    } else {
        ReachView::Network("anyone who can reach "@ + shown)
    }
}

/// Classify the bound address for the warning of an open registry.
///
/// The unspecified address is split off from a specific one because it is not
/// somewhere anything connects *to*, and a warning that quotes it back reads as
/// a machine's address rather than as the reach it stands for. A specific
/// address is quoted, because it is the one an operator can check against what
/// they meant to bind.
pub fn reach(ip: Ip, port: u16, shown: &str) -> (r: Reach)
    ensures
        r@ == reach_of(ip, port, shown@),
{
    if loopback(&ip) {
        Reach::Loopback
    } else if unspecified(&ip) {
        let mut who = text::copy("anyone who can reach this machine on port ");
        who.append(text::decimal_text(port as u64).as_str());
        Reach::Network(who)
    } else {
        let mut who = text::copy("anyone who can reach ");
        who.append(shown);
        Reach::Network(who)
    }
}

/// A bound address rewritten into one a browser can open: "every interface" is
/// not an address anything connects to, and loopback is the one that works from
/// the host.
pub fn reachable(ip: Ip) -> (r: Ip)
    ensures
        r == (if is_unspecified(ip) {
            loopback_of(ip)
        } else {
            ip
        }),
{
    if unspecified(&ip) {
        match ip {
            Ip::V4(_) => Ip::V4([127, 0, 0, 1]),
            Ip::V6(_) => Ip::V6([0, 0, 0, 0, 0, 0, 0, 1]),
        }
    } else {
        ip
    }
}

/// What the banner offers is never the address of every interface.
pub proof fn law_reachable_is_an_address(ip: Ip)
    ensures
        !is_unspecified(loopback_of(ip)),
        is_loopback(loopback_of(ip)),
{
    let v4: [u8; 4] = [127, 0, 0, 1];
    let v6: [u16; 8] = [0, 0, 0, 0, 0, 0, 0, 1];
    assert(v4@[0] == 127);
    assert(v6@ =~= seq![0u16, 0, 0, 0, 0, 0, 0, 1]);
    assert(v6@[7] == 1);
    assert(seq![0u8, 0, 0, 0][0] == 0);
    assert(seq![0u16, 0, 0, 0, 0, 0, 0, 0][7] == 0);
}

/// Only a loopback bind is unreachable from the network: the line between "this
/// machine" and "the network" is the bind address and nothing else.
pub proof fn law_only_loopback_is_local(ip: Ip, port: u16, shown: Seq<char>)
    ensures
        reach_of(ip, port, shown) is Loopback <==> is_loopback(ip),
        is_unspecified(ip) ==> reach_of(ip, port, shown) is Network,
{
    if is_unspecified(ip) {
        assert(seq![0u8, 0, 0, 0][0] == 0);
        assert(seq![0u16, 0, 0, 0, 0, 0, 0, 0][7] == 0);
        assert(seq![0u16, 0, 0, 0, 0, 0, 0, 1][7] == 1);
    }
}

// ---- the auth mode -----------------------------------------------------------

/// The line that prints a key that was generated.
pub open spec fn key_line(label: Seq<char>, key: Seq<char>) -> Seq<char> {
    label + key + "   (generated)"@
}

fn generated_line(label: &str, key: &str) -> (r: String)
    ensures
        r@ == key_line(label@, key@),
{
    let mut r = text::copy(label);
    r.append(key);
    r.append("   (generated)");
    r
}

/// `lines`, and one more where `when` holds.
pub open spec fn also(lines: Seq<Seq<char>>, when: bool, line: Seq<char>) -> Seq<Seq<char>> {
    if when {
        lines.push(line)
    } else {
        lines
    }
}

/// What each mode lets a stranger do.
pub open spec fn mode_lines(policy: AuthPolicyView, reach: ReachView) -> Seq<Seq<char>> {
    match policy {
        AuthPolicyView::Open => match reach {
            ReachView::Loopback => seq![
                "  auth mode     open - no credential is required, to pull or to push"@,
                "                any process on this machine may pull, push and"@,
                "                delete; the listener is on loopback, so nothing"@,
                "                else can reach it"@,
            ],
            ReachView::Network(who) => seq![
                "  auth mode     open - no credential is required, to pull or to push"@,
                "  !! OPEN REGISTRY - "@ + who,
                "  !! may pull, push and delete. No credential is asked for, and"@,
                "  !! none would be accepted."@,
                "  !! --auth-mode public-pull gates push; private gates pulls too."@,
            ],
        },
        AuthPolicyView::PublicPull { .. } => seq![
            "  auth mode     public-pull - anonymous pull, API key to push"@,
            "                the catalog, every tag, every manifest and the whole"@,
            "                UI are readable by anyone who can reach the port"@,
        ],
        AuthPolicyView::Private { .. } => seq![
            "  auth mode     private - a key for everything, as an HTTP Basic password"@,
            "                /v2/, the discovery API and the UI are all behind it;"@,
            "                the read key reads, the write key does both"@,
        ],
    }
}

/// The keys that had to be invented.
pub open spec fn key_lines(
    lines: Seq<Seq<char>>,
    policy: AuthPolicyView,
    generated: Generated,
) -> Seq<Seq<char>> {
    match policy {
        AuthPolicyView::Open => lines,
        AuthPolicyView::PublicPull { write } => also(
            lines,
            generated.write,
            key_line("  write key     "@, write),
        ),
        AuthPolicyView::Private { read, write } => also(
            also(lines, generated.read, key_line("  read key      "@, read)),
            generated.write,
            key_line("  write key     "@, write),
        ),
    }
}

/// Which keys were generated, where that is known at all.
pub open spec fn made_up(generated: Option<Generated>) -> Generated {
    match generated {
        Some(g) => g,
        None => Generated { read: false, write: false },
    }
}

/// The auth mode, what it means, and any key that had to be invented.
pub open spec fn auth_lines(
    policy: AuthPolicyView,
    generated: Option<Generated>,
    reach: ReachView,
) -> Seq<Seq<char>> {
    let g = made_up(generated);
    also(
        key_lines(mode_lines(policy, reach), policy, g),
        g.read || g.write,
        "  !! a generated key is printed once and is not stored anywhere."@,
    )
}

/// One more line.
fn say(lines: &mut Vec<String>, line: &str)
    ensures
        text::texts(final(lines)@) == text::texts(old(lines)@).push(line@),
{
    let ghost before = text::texts(lines@);
    lines.push(text::copy(line));
    assert(text::texts(lines@) =~= before.push(line@));
}

/// The auth mode, what it means, and any key that had to be invented.
///
/// The mode's *name* is not the thing an operator needs off a banner - what it
/// lets a stranger do is - so every mode spells that out. The warning of an open
/// registry goes by the bound address rather than by the mode alone: open on
/// loopback is a laptop's registry, and shouting at its operator is how a banner
/// teaches people to skim past it.
///
/// A *generated* key exists nowhere else, so it is printed in full. A *supplied*
/// key is not printed at all: whoever passed it already has it, and echoing it
/// only copies a live credential into a scrollback.
pub fn print_auth(policy: &AuthPolicy, generated: Option<Generated>, reach: &Reach) -> (r: Vec<
    String,
>)
    ensures
        text::texts(r@) == auth_lines(policy@, generated, reach@),
{
    let g = match generated {
        Some(g) => g,
        None => Generated { read: false, write: false },
    };
    let mut lines: Vec<String> = Vec::new();
    assert(text::texts(lines@) =~= Seq::empty());
    match policy {
        AuthPolicy::Open => {
            say(&mut lines, "  auth mode     open - no credential is required, to pull or to push");
            match reach {
                Reach::Loopback => {
                    say(&mut lines, "                any process on this machine may pull, push and");
                    say(&mut lines, "                delete; the listener is on loopback, so nothing");
                    say(&mut lines, "                else can reach it");
                },
                Reach::Network(who) => {
                    // The variable phrase ends the line, so a long address cannot
                    // push the fixed text past the width of the banner.
                    let mut warning = text::copy("  !! OPEN REGISTRY - ");
                    warning.append(who.as_str());
                    say(&mut lines, warning.as_str());
                    say(&mut lines, "  !! may pull, push and delete. No credential is asked for, and");
                    say(&mut lines, "  !! none would be accepted.");
                    say(
                        &mut lines,
                        "  !! --auth-mode public-pull gates push; private gates pulls too.",
                    );
                },
            }
        },
        AuthPolicy::PublicPull { write } => {
            say(&mut lines, "  auth mode     public-pull - anonymous pull, API key to push");
            say(&mut lines, "                the catalog, every tag, every manifest and the whole");
            say(&mut lines, "                UI are readable by anyone who can reach the port");
            assert(text::texts(lines@) =~= mode_lines(policy@, reach@));
            if g.write {
                say(&mut lines, generated_line("  write key     ", write.expose()).as_str());
            }
        },
        AuthPolicy::Private { read, write } => {
            say(
                &mut lines,
                "  auth mode     private - a key for everything, as an HTTP Basic password",
            );
            say(&mut lines, "                /v2/, the discovery API and the UI are all behind it;");
            say(&mut lines, "                the read key reads, the write key does both");
            assert(text::texts(lines@) =~= mode_lines(policy@, reach@));
            if g.read {
                say(&mut lines, generated_line("  read key      ", read.expose()).as_str());
            }
            if g.write {
                say(&mut lines, generated_line("  write key     ", write.expose()).as_str());
            }
        },
    }
    assert(text::texts(lines@) =~= key_lines(mode_lines(policy@, reach@), policy@, g));
    if g.read || g.write {
        say(&mut lines, "  !! a generated key is printed once and is not stored anywhere.");
    }
    lines
}

/// A supplied key is never printed: two registries that differ only in keys that
/// were not generated start with the same lines.
pub proof fn law_supplied_keys_are_not_printed(
    one: AuthPolicyView,
    two: AuthPolicyView,
    generated: Option<Generated>,
    reach: ReachView,
)
    requires
        one is Open <==> two is Open,
        one is PublicPull <==> two is PublicPull,
        made_up(generated).read ==> auth::read_key(one) == auth::read_key(two),
        made_up(generated).write ==> auth::write_key(one) == auth::write_key(two),
    ensures
        auth_lines(one, generated, reach) == auth_lines(two, generated, reach),
{
}

/// A generated key is printed in full, with the notice that it is printed once.
pub proof fn law_generated_keys_are_printed(
    policy: AuthPolicyView,
    generated: Option<Generated>,
    reach: ReachView,
)
    ensures
        made_up(generated).write && auth::write_key(policy) is Some ==> auth_lines(
            policy,
            generated,
            reach,
        ).contains(key_line("  write key     "@, auth::write_key(policy)->0)),
        made_up(generated).read && auth::read_key(policy) is Some ==> auth_lines(
            policy,
            generated,
            reach,
        ).contains(key_line("  read key      "@, auth::read_key(policy)->0)),
{
    let g = made_up(generated);
    let mode = mode_lines(policy, reach);
    let lines = auth_lines(policy, generated, reach);
    if g.read && auth::read_key(policy) is Some {
        assert(lines[mode.len() as int] == key_line(
            "  read key      "@,
            auth::read_key(policy)->0,
        ));
    }
    if g.write && auth::write_key(policy) is Some {
        let at = if g.read && policy is Private {
            mode.len() + 1
        } else {
            mode.len()
        };
        assert(lines[at as int] == key_line("  write key     "@, auth::write_key(policy)->0));
    }
}

// ---- the banner --------------------------------------------------------------

/// What there is to say about a server that has started.
#[derive(Debug)]
pub struct Started {
    pub version: String,
    /// The address that was bound, which is not the one asked for where the
    /// kernel chose the port.
    pub bound: String,
    /// The address a browser can open.
    pub reachable: String,
    pub data_dir: String,
    pub engine: Engine,
    pub allow_missing_references: bool,
    pub no_pull_counts: bool,
}

/// An engine's name.
pub open spec fn engine_name(engine: Engine) -> Seq<char> {
    match engine {
        Engine::Rocks => "Rocks"@,
        Engine::Redb => "Redb"@,
    }
}

/// Where the server is and what it runs on.
pub open spec fn banner_lines(s: Started) -> Seq<Seq<char>> {
    also(
        also(
            seq![
                "summ "@ + s.version@,
                "  listening on  "@ + s.bound@,
                "  registry      http://"@ + s.reachable@ + "/v2/"@,
                "  data dir      "@ + s.data_dir@,
                "  engine        "@ + engine_name(s.engine),
            ],
            s.allow_missing_references,
            "  references    unvalidated (--allow-missing-references)"@,
        ),
        s.no_pull_counts,
        "  pull counts   off (--no-pull-counts)"@,
    )
}

/// `label` and `value` on one line.
fn labelled(label: &str, value: &str) -> (r: String)
    ensures
        r@ == label@ + value@,
{
    let mut r = text::copy(label);
    r.append(value);
    r
}

/// Where the server is and what it runs on.
pub fn banner(s: &Started) -> (r: Vec<String>)
    ensures
        text::texts(r@) == banner_lines(*s),
{
    let mut lines: Vec<String> = Vec::new();
    assert(text::texts(lines@) =~= Seq::empty());
    say(&mut lines, labelled("summ ", s.version.as_str()).as_str());
    say(&mut lines, labelled("  listening on  ", s.bound.as_str()).as_str());
    let mut registry = labelled("  registry      http://", s.reachable.as_str());
    registry.append("/v2/");
    say(&mut lines, registry.as_str());
    say(&mut lines, labelled("  data dir      ", s.data_dir.as_str()).as_str());
    let engine = match s.engine {
        Engine::Rocks => "Rocks",
        Engine::Redb => "Redb",
    };
    say(&mut lines, labelled("  engine        ", engine).as_str());
    let ghost fixed = seq![
        "summ "@ + s.version@,
        "  listening on  "@ + s.bound@,
        "  registry      http://"@ + s.reachable@ + "/v2/"@,
        "  data dir      "@ + s.data_dir@,
        "  engine        "@ + engine_name(s.engine),
    ];
    assert(text::texts(lines@) =~= fixed);
    if s.allow_missing_references {
        say(&mut lines, "  references    unvalidated (--allow-missing-references)");
    }
    if s.no_pull_counts {
        say(&mut lines, "  pull counts   off (--no-pull-counts)");
    }
    lines
}

/// Where an open registry can be reached from the network a warning names who can
/// reach it, and whatever the reach, the first line names the mode.
pub proof fn law_open_registry_on_the_network_is_warned_of(
    policy: AuthPolicyView,
    reach: ReachView,
    who: Seq<char>,
)
    ensures
        reach == ReachView::Network(who) && policy is Open ==> mode_lines(policy, reach).contains(
            "  !! OPEN REGISTRY - "@ + who,
        ),
        policy is Open ==> mode_lines(policy, reach)[0]
            == "  auth mode     open - no credential is required, to pull or to push"@,
        policy is PublicPull ==> mode_lines(policy, reach)[0]
            == "  auth mode     public-pull - anonymous pull, API key to push"@,
        policy is Private ==> mode_lines(policy, reach)[0]
            == "  auth mode     private - a key for everything, as an HTTP Basic password"@,
{
    if reach == ReachView::Network(who) && policy is Open {
        assert(mode_lines(policy, reach)[1] == "  !! OPEN REGISTRY - "@ + who);
    }
}

/// Where every interface is bound, the port is what says who can reach it, and
/// where one address is, that address.
pub proof fn law_reach_says_who(ip: Ip, port: u16, shown: Seq<char>)
    ensures
        is_unspecified(ip) ==> reach_of(ip, port, shown) == ReachView::Network(
            "anyone who can reach this machine on port "@ + text::decimal(port as nat),
        ),
        !is_unspecified(ip) && !is_loopback(ip) ==> reach_of(ip, port, shown) == ReachView::Network(
            "anyone who can reach "@ + shown,
        ),
{
    if is_unspecified(ip) {
        assert(seq![0u8, 0, 0, 0][0] == 0);
        assert(seq![0u16, 0, 0, 0, 0, 0, 0, 0][7] == 0);
        assert(seq![0u16, 0, 0, 0, 0, 0, 0, 1][7] == 1);
    }
}

/// The address that is offered is the one that was bound, but for every interface,
/// for which it is loopback of the same family.
pub proof fn law_offered_address_is_the_bound_one(ip: Ip, r: Ip)
    requires
        call_ensures(reachable, (ip,), r),
    ensures
        !is_unspecified(ip) ==> r == ip,
        is_unspecified(ip) ==> is_loopback(r),
        r is V4 <==> ip is V4,
        !is_unspecified(r),
{
    law_reachable_is_an_address(ip);
}

/// The banner says what was started, where it listens, where a client finds it,
/// what it stores in and on what, and each switch that is not as usual, in that
/// order.
pub proof fn law_banner_says_where_the_server_is(s: Started)
    ensures
        banner_lines(s)[0] == "summ "@ + s.version@,
        banner_lines(s)[1] == "  listening on  "@ + s.bound@,
        banner_lines(s)[2] == "  registry      http://"@ + s.reachable@ + "/v2/"@,
        banner_lines(s)[3] == "  data dir      "@ + s.data_dir@,
        banner_lines(s)[4] == "  engine        "@ + (if s.engine == Engine::Rocks {
            "Rocks"@
        } else {
            "Redb"@
        }),
        banner_lines(s).len() == 5 + (if s.allow_missing_references {
            1int
        } else {
            0
        }) + (if s.no_pull_counts {
            1int
        } else {
            0
        }),
        s.allow_missing_references ==> banner_lines(s)[5]
            == "  references    unvalidated (--allow-missing-references)"@,
        s.no_pull_counts ==> banner_lines(s).last() == "  pull counts   off (--no-pull-counts)"@,
{
}

/// Loopback is `127.` and anything behind it, or `::1`, and every interface is
/// `0.0.0.0` or `::`.
pub proof fn law_special_addresses(v4: [u8; 4], v6: [u16; 8])
    ensures
        is_loopback(Ip::V4(v4)) <==> v4@[0] == 127,
        is_unspecified(Ip::V4(v4)) <==> v4@[0] == 0 && v4@[1] == 0 && v4@[2] == 0 && v4@[3] == 0,
        is_loopback(Ip::V6(v6)) <==> v6@[7] == 1 && forall|i: int|
            0 <= i < 7 ==> #[trigger] v6@[i] == 0,
        is_unspecified(Ip::V6(v6)) <==> forall|i: int| 0 <= i < 8 ==> #[trigger] v6@[i] == 0,
{
    let none4 = seq![0u8, 0, 0, 0];
    let none6 = seq![0u16, 0, 0, 0, 0, 0, 0, 0];
    let one6 = seq![0u16, 0, 0, 0, 0, 0, 0, 1];
    if v4@[0] == 0 && v4@[1] == 0 && v4@[2] == 0 && v4@[3] == 0 {
        assert(v4@ =~= none4);
    }
    assert(none4[0] == 0 && none4[1] == 0 && none4[2] == 0 && none4[3] == 0);
    if forall|i: int| 0 <= i < 8 ==> #[trigger] v6@[i] == 0 {
        assert(v6@ =~= none6);
    }
    if v6@[7] == 1 && forall|i: int| 0 <= i < 7 ==> #[trigger] v6@[i] == 0 {
        assert(v6@ =~= one6);
    }
}

/// The line of a generated key holds the key whole, between its label and the word
/// that it was generated, and the notice that it is printed once follows where any
/// was.
pub proof fn law_generated_line_holds_the_key(
    label: Seq<char>,
    key: Seq<char>,
    policy: AuthPolicyView,
    generated: Option<Generated>,
    reach: ReachView,
)
    ensures
        key_line(label, key) == label + key + "   (generated)"@,
        made_up(generated).read || made_up(generated).write ==> auth_lines(policy, generated, reach).last()
            == "  !! a generated key is printed once and is not stored anywhere."@,
        generated is None ==> auth_lines(policy, generated, reach) == mode_lines(policy, reach),
{
}

} // verus!
