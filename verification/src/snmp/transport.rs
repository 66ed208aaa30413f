//! How switches are asked.
use vstd::prelude::*;

use super::config::{SnmpClusterConfig, SnmpSwitchLldpConfig, SnmpVersion};
use crate::process::{lossy_of, lossy_text, ProcessOutput};
use crate::text::{copy, copy_opt, join2, opt_text, same, texts, trim, trimmed};

verus! {

/// What identifies the one who asks, taken from a cluster's configuration.
#[derive(Clone, Debug)]
pub struct SnmpTransport {
    version: SnmpVersion,
    community: Option<String>,
    user: Option<String>,
    auth_protocol: Option<String>,
    auth_password: Option<String>,
    security_level: Option<String>,
    priv_protocol: Option<String>,
    priv_password: Option<String>,
}

/// What identifies the one who asks, read as characters.
#[verifier::ext_equal]
pub struct TransportView {
    pub version: SnmpVersion,
    pub community: Option<Seq<char>>,
    pub user: Option<Seq<char>>,
    pub auth_protocol: Option<Seq<char>>,
    pub auth_password: Option<Seq<char>>,
    pub security_level: Option<Seq<char>>,
    pub priv_protocol: Option<Seq<char>>,
    pub priv_password: Option<Seq<char>>,
}

impl View for SnmpTransport {
    type V = TransportView;

    closed spec fn view(&self) -> TransportView {
        TransportView {
            version: self.version,
            community: opt_text(self.community),
            user: opt_text(self.user),
            auth_protocol: opt_text(self.auth_protocol),
            auth_password: opt_text(self.auth_password),
            security_level: opt_text(self.security_level),
            priv_protocol: opt_text(self.priv_protocol),
            priv_password: opt_text(self.priv_password),
        }
    }
}

/// What a cluster's configuration says of it.
pub open spec fn configured(c: SnmpClusterConfig) -> TransportView {
    TransportView {
        version: c.version,
        community: opt_text(c.community),
        user: opt_text(c.user),
        auth_protocol: opt_text(c.auth_protocol),
        auth_password: opt_text(c.auth_password),
        security_level: opt_text(c.security_level),
        priv_protocol: opt_text(c.priv_protocol),
        priv_password: opt_text(c.priv_password),
    }
}

/// The name of a version.
pub open spec fn version_name(v: SnmpVersion) -> Seq<char> {
    match v {
        SnmpVersion::V1 => "V1"@,
        SnmpVersion::V2c => "V2c"@,
        SnmpVersion::V3 => "V3"@,
    }
}

/// The option that asks for a version.
pub open spec fn version_option(v: SnmpVersion) -> Seq<char> {
    match v {
        SnmpVersion::V1 => "-v1"@,
        SnmpVersion::V2c => "-v2c"@,
        SnmpVersion::V3 => "-v3"@,
    }
}

/// A setting that must be there and not be empty.
pub open spec fn needed(v: SnmpVersion, value: Option<Seq<char>>, field: Seq<char>) -> Result<
    Seq<char>,
    Seq<char>,
> {
    match value {
        Some(s) => if s.len() > 0 {
            Ok(s)
        } else {
            Err("SNMP "@ + version_name(v) + " requires `"@ + field + "` to be set"@)
        },
        None => Err("SNMP "@ + version_name(v) + " requires `"@ + field + "` to be set"@),
    }
}

/// Two needed settings, each behind its option.
pub open spec fn option_pair(
    first: (Seq<char>, Result<Seq<char>, Seq<char>>),
    second: (Seq<char>, Result<Seq<char>, Seq<char>>),
) -> Result<Seq<Seq<char>>, Seq<char>> {
    match first.1 {
        Err(e) => Err(e),
        Ok(a) => match second.1 {
            Err(e) => Err(e),
            Ok(b) => Ok(seq![first.0, a, second.0, b]),
        },
    }
}

/// The options for authentication.
pub open spec fn auth_args(t: TransportView) -> Result<Seq<Seq<char>>, Seq<char>> {
    option_pair(
        ("-a"@, needed(t.version, t.auth_protocol, "auth_protocol"@)),
        ("-A"@, needed(t.version, t.auth_password, "auth_password"@)),
    )
}

/// The options for secrecy.
pub open spec fn priv_args(t: TransportView) -> Result<Seq<Seq<char>>, Seq<char>> {
    option_pair(
        ("-x"@, needed(t.version, t.priv_protocol, "priv_protocol"@)),
        ("-X"@, needed(t.version, t.priv_password, "priv_password"@)),
    )
}

/// The options of version 3. The security level says which of them are needed.
pub open spec fn usm_args(t: TransportView) -> Result<Seq<Seq<char>>, Seq<char>> {
    match needed(t.version, t.user, "user"@) {
        Err(e) => Err(e),
        Ok(user) => match needed(t.version, t.security_level, "security_level"@) {
            Err(e) => Err(e),
            Ok(level) => {
                let base = seq![version_option(t.version), "-l"@, level, "-u"@, user];
                if level == "noAuthNoPriv"@ {
                    Ok(base)
                } else if level == "authNoPriv"@ {
                    match auth_args(t) {
                        Ok(a) => Ok(base + a),
                        Err(e) => Err(e),
                    }
                } else if level == "authPriv"@ {
                    match auth_args(t) {
                        Ok(a) => match priv_args(t) {
                            Ok(p) => Ok(base + a + p),
                            Err(e) => Err(e),
                        },
                        Err(e) => Err(e),
                    }
                } else {
                    Err("invalid security_level: "@ + level)
                }
            },
        },
    }
}

/// The options that identify the one who asks, or why there are none.
pub open spec fn identity_args(t: TransportView) -> Result<Seq<Seq<char>>, Seq<char>> {
    if t.version == SnmpVersion::V3 {
        usm_args(t)
    } else {
        match needed(t.version, t.community, "community"@) {
            Ok(c) => Ok(seq![version_option(t.version), "-c"@, c]),
            Err(e) => Err(e),
        }
    }
}

/// A result of strings is this result of characters.
pub open spec fn args_are(
    r: Result<Vec<String>, String>,
    want: Result<Seq<Seq<char>>, Seq<char>>,
) -> bool {
    match (r, want) {
        (Ok(v), Ok(w)) => texts(v@) == w,
        (Err(e), Err(m)) => e@ == m,
        _ => false,
    }
}

fn push_pair(args: &mut Vec<String>, option: &str, value: String)
    ensures
        texts(final(args)@) == texts(old(args)@) + seq![option@, value@],
{
    let ghost was = args@;
    let ghost v = value@;
    args.push(copy(option));
    args.push(value);
    assert(texts(args@) =~= texts(was) + seq![option@, v]);
}

impl SnmpTransport {
    /// What a cluster's configuration says, where nothing that is needed is missing.
    pub fn from_cluster(cluster_config: &SnmpClusterConfig) -> (r: Result<SnmpTransport, String>)
        ensures
            match (r, identity_args(configured(*cluster_config))) {
                (Ok(t), Ok(_)) => t@ == configured(*cluster_config),
                (Err(e), Err(m)) => e@ == m,
                _ => false,
            },
    {
        let transport = SnmpTransport {
            version: cluster_config.version,
            community: copy_opt(&cluster_config.community),
            user: copy_opt(&cluster_config.user),
            auth_protocol: copy_opt(&cluster_config.auth_protocol),
            auth_password: copy_opt(&cluster_config.auth_password),
            security_level: copy_opt(&cluster_config.security_level),
            priv_protocol: copy_opt(&cluster_config.priv_protocol),
            priv_password: copy_opt(&cluster_config.priv_password),
        };
        assert(transport@ == configured(*cluster_config));
        match transport.build_args() {
            Ok(_) => Ok(transport),
            Err(e) => Err(e),
        }
    }

    /// The options that identify the one who asks.
    pub fn build_args(&self) -> (r: Result<Vec<String>, String>)
        ensures
            args_are(r, identity_args(self@)),
    {
        let mut args: Vec<String> = Vec::new();
        args.push(
            match self.version {
                SnmpVersion::V1 => copy("-v1"),
                SnmpVersion::V2c => copy("-v2c"),
                SnmpVersion::V3 => copy("-v3"),
            },
        );
        assert(texts(args@) =~= seq![version_option(self.version)]);
        if self.version != SnmpVersion::V3 {
            return match self.required(&self.community, "community") {
                Ok(c) => {
                    let ghost cv = c@;
                    push_pair(&mut args, "-c", c);
                    assert(texts(args@) =~= seq![version_option(self.version), "-c"@, cv]);
                    Ok(args)
                },
                Err(e) => Err(e),
            };
        }
        let user = match self.required(&self.user, "user") {
            Ok(s) => s,
            Err(e) => {
                return Err(e);
            },
        };
        let level = match self.required(&self.security_level, "security_level") {
            Ok(s) => s,
            Err(e) => {
                return Err(e);
            },
        };
        let ghost uv = user@;
        push_pair(&mut args, "-l", copy(level.as_str()));
        push_pair(&mut args, "-u", user);
        assert(texts(args@) =~= seq![version_option(self.version), "-l"@, level@, "-u"@, uv]);
        if same(level.as_str(), "noAuthNoPriv") {
            Ok(args)
        } else if same(level.as_str(), "authNoPriv") {
            self.push_auth(args)
        } else if same(level.as_str(), "authPriv") {
            match self.push_auth(args) {
                Ok(with_auth) => self.push_priv(with_auth),
                Err(e) => Err(e),
            }
        } else {
            Err(join2("invalid security_level: ", level.as_str()))
        }
    }

    fn push_auth(&self, args: Vec<String>) -> (r: Result<Vec<String>, String>)
        ensures
            match (r, auth_args(self@)) {
                (Ok(v), Ok(a)) => texts(v@) == texts(args@) + a,
                (Err(e), Err(m)) => e@ == m,
                _ => false,
            },
    {
        self.push_options(
            args,
            ("-a", &self.auth_protocol, "auth_protocol"),
            ("-A", &self.auth_password, "auth_password"),
        )
    }

    fn push_priv(&self, args: Vec<String>) -> (r: Result<Vec<String>, String>)
        ensures
            match (r, priv_args(self@)) {
                (Ok(v), Ok(p)) => texts(v@) == texts(args@) + p,
                (Err(e), Err(m)) => e@ == m,
                _ => false,
            },
    {
        self.push_options(
            args,
            ("-x", &self.priv_protocol, "priv_protocol"),
            ("-X", &self.priv_password, "priv_password"),
        )
    }

    fn push_options(
        &self,
        args: Vec<String>,
        first: (&str, &Option<String>, &str),
        second: (&str, &Option<String>, &str),
    ) -> (r: Result<Vec<String>, String>)
        ensures
            match (
                r,
                option_pair(
                    (first.0@, needed(self@.version, opt_text(*first.1), first.2@)),
                    (second.0@, needed(self@.version, opt_text(*second.1), second.2@)),
                ),
            ) {
                (Ok(v), Ok(a)) => texts(v@) == texts(args@) + a,
                (Err(e), Err(m)) => e@ == m,
                _ => false,
            },
    {
        let mut args = args;
        let ghost was = texts(args@);
        let a = match self.required(first.1, first.2) {
            Ok(s) => s,
            Err(e) => {
                return Err(e);
            },
        };
        let b = match self.required(second.1, second.2) {
            Ok(s) => s,
            Err(e) => {
                return Err(e);
            },
        };
        let ghost av = a@;
        let ghost bv = b@;
        push_pair(&mut args, first.0, a);
        push_pair(&mut args, second.0, b);
        assert(texts(args@) =~= was + seq![first.0@, av, second.0@, bv]);
        Ok(args)
    }

    /// A setting that must be there and not be empty.
    pub fn required(&self, value: &Option<String>, field: &str) -> (r: Result<String, String>)
        ensures
            match (r, needed(self@.version, opt_text(*value), field@)) {
                (Ok(s), Ok(w)) => s@ == w,
                (Err(e), Err(m)) => e@ == m,
                _ => false,
            },
    {
        match value {
            Some(s) => if !crate::text::same(s.as_str(), "") {
                proof {
                    reveal_strlit("");
                    assert(s@.len() == 0 ==> s@ =~= ""@);
                }
                Ok(copy(s.as_str()))
            } else {
                proof {
                    reveal_strlit("");
                }
                Err(self.missing(field))
            },
            None => Err(self.missing(field)),
        }
    }

    fn missing(&self, field: &str) -> (r: String)
        ensures
            r@ == "SNMP "@ + version_name(self@.version) + " requires `"@ + field@
                + "` to be set"@,
    {
        let mut s = copy("SNMP ");
        s.append(
            match self.version {
                SnmpVersion::V1 => "V1",
                SnmpVersion::V2c => "V2c",
                SnmpVersion::V3 => "V3",
            },
        );
        s.append(" requires `");
        s.append(field);
        s.append("` to be set");
        s
    }
}

// ---------------------------------------------------------------------------
// Commands
// ---------------------------------------------------------------------------
/// A program to run, with its arguments.
#[derive(Clone, Debug)]
pub struct SnmpCommand {
    /// The program.
    pub program: String,
    /// Its arguments.
    pub args: Vec<String>,
}

/// The command is this program, asked with these options about that OID of that
/// target.
pub open spec fn asks(
    r: Result<SnmpCommand, String>,
    program: Seq<char>,
    t: TransportView,
    target: Seq<char>,
    oid: Seq<char>,
) -> bool {
    match (r, identity_args(t)) {
        (Ok(c), Ok(a)) => c.program@ == program && texts(c.args@) == a + seq![target, oid],
        (Err(e), Err(m)) => e@ == m,
        _ => false,
    }
}

/// The command that asks a target about an OID.
pub fn query(program: &str, transport: &SnmpTransport, target: &str, oid: &str) -> (r: Result<
    SnmpCommand,
    String,
>)
    ensures
        asks(r, program@, transport@, target@, oid@),
{
    match transport.build_args() {
        Ok(mut args) => {
            push_pair(&mut args, target, copy(oid));
            Ok(SnmpCommand { program: copy(program), args })
        },
        Err(e) => Err(e),
    }
}

/// The command that asks for one value.
pub fn snmp_get(transport: &SnmpTransport, target: &str, oid: &str) -> (r: Result<
    SnmpCommand,
    String,
>)
    ensures
        asks(r, "snmpget"@, transport@, target@, oid@),
{
    query("snmpget", transport, target, oid)
}

/// The command that asks for all values below an OID.
pub fn snmpwalk(transport: &SnmpTransport, target: &str, base_oid: &str) -> (r: Result<
    SnmpCommand,
    String,
>)
    ensures
        asks(r, "snmpwalk"@, transport@, target@, base_oid@),
{
    query("snmpwalk", transport, target, base_oid)
}

/// The target that a command with these arguments asks: the last but one.
pub open spec fn asked(args: Seq<Seq<char>>) -> Seq<char> {
    if args.len() == 0 {
        "unknown"@
    } else if args.len() == 1 {
        args[0]
    } else {
        args[args.len() - 2]
    }
}

/// The target that a command asks, which is all that a message may name of its
/// arguments.
pub fn asked_target(args: &Vec<String>) -> (r: String)
    ensures
        r@ == asked(texts(args@)),
{
    let n: usize = args.len();
    if n == 0 {
        copy("unknown")
    } else if n == 1 {
        copy(args[0].as_str())
    } else {
        copy(args[n - 2].as_str())
    }
}

/// Where the settings of a cluster were accepted, any target can be asked about any
/// OID.
pub proof fn law_checked_transport_can_ask(
    c: SnmpClusterConfig,
    r: Result<SnmpCommand, String>,
    program: Seq<char>,
    target: Seq<char>,
    oid: Seq<char>,
)
    requires
        identity_args(configured(c)) is Ok,
        asks(r, program, configured(c), target, oid),
    ensures
        r is Ok,
{
}

/// The target that a query names in a message is the one that was asked: no setting
/// that identifies the one who asks is ever named.
pub proof fn law_message_names_the_target(
    r: Result<SnmpCommand, String>,
    program: Seq<char>,
    t: TransportView,
    target: Seq<char>,
    oid: Seq<char>,
)
    requires
        r is Ok,
        asks(r, program, t, target, oid),
    ensures
        asked(texts(r->Ok_0.args@)) == target,
{
}

/// What a program printed, whether or not it ended well. One that could not be run
/// is an error.
pub open spec fn printed(program: Seq<char>, run: Result<ProcessOutput, String>) -> Result<
    Seq<char>,
    Seq<char>,
> {
    match run {
        Ok(o) => Ok(lossy_of(o.stdout@)),
        Err(e) => Err("failed to run "@ + program + ": "@ + e@),
    }
}

/// What a program printed, from how running it went.
pub fn run_snmp(program: &str, run: &Result<ProcessOutput, String>) -> (r: Result<String, String>)
    ensures
        match (r, printed(program@, *run)) {
            (Ok(s), Ok(w)) => s@ == w,
            (Err(e), Err(m)) => e@ == m,
            _ => false,
        },
{
    match run {
        Ok(o) => Ok(lossy_text(&o.stdout)),
        Err(e) => {
            let mut s = copy("failed to run ");
            s.append(program);
            s.append(": ");
            s.append(e.as_str());
            Err(s)
        },
    }
}

/// What there is to say of a program that ended badly: which target was asked, and
/// what the program complained about.
pub fn run_complaint(args: &Vec<String>, output: &ProcessOutput) -> (r: Option<(String, String)>)
    ensures
        match r {
            Some((target, complaint)) => !output.success && target@ == asked(texts(args@))
                && complaint@ == trimmed(lossy_of(output.stderr@)),
            None => output.success,
        },
{
    if output.success {
        None
    } else {
        let complaint = lossy_text(&output.stderr);
        Some((asked_target(args), trim(complaint.as_str())))
    }
}

// ---------------------------------------------------------------------------
// Clusters
// ---------------------------------------------------------------------------
/// The first cluster whose settings cannot be asked with, of the first `n`.
pub open spec fn first_refused(clusters: Seq<SnmpClusterConfig>, n: int) -> Option<Seq<char>>
    decreases n,
{
    if n <= 0 {
        None
    } else {
        match first_refused(clusters, n - 1) {
            Some(m) => Some(m),
            None => match identity_args(configured(clusters[n - 1])) {
                Ok(_) => None,
                Err(m) => Some(m),
            },
        }
    }
}

/// One transport for each cluster, in their order; or why the first cluster that
/// has none has none.
pub fn cluster_transports(config: &SnmpSwitchLldpConfig) -> (r: Result<Vec<SnmpTransport>, String>)
    ensures
        match r {
            Ok(v) => {
                &&& first_refused(config.clusters@, config.clusters@.len() as int) is None
                &&& v@.len() == config.clusters@.len()
                &&& forall|i: int|
                    0 <= i < v@.len() ==> (#[trigger] v@[i])@ == configured(config.clusters@[i])
            },
            Err(e) => first_refused(config.clusters@, config.clusters@.len() as int) == Some(e@),
        },
{
    let mut r: Vec<SnmpTransport> = Vec::new();
    let n: usize = config.clusters.len();
    let ghost all = config.clusters@;
    let mut i: usize = 0;
    while i < n
        invariant
            n == all.len(),
            all == config.clusters@,
            i <= n,
            r@.len() == i,
            first_refused(all, i as int) is None,
            forall|j: int| 0 <= j < i ==> (#[trigger] r@[j])@ == configured(all[j]),
        decreases n - i,
    {
        match SnmpTransport::from_cluster(&config.clusters[i]) {
            Ok(t) => r.push(t),
            Err(e) => {
                proof {
                    lemma_refused_stays(all, i + 1, n as int, e@);
                }
                return Err(e);
            },
        }
        i = i + 1;
    }
    Ok(r)
}

proof fn lemma_refused_stays(clusters: Seq<SnmpClusterConfig>, k: int, n: int, m: Seq<char>)
    requires
        0 < k <= n,
        first_refused(clusters, k) == Some(m),
    ensures
        first_refused(clusters, n) == Some(m),
    decreases n - k,
{
    if k < n {
        assert(first_refused(clusters, k + 1) == Some(m));
        lemma_refused_stays(clusters, k + 1, n, m);
    }
}

// ---------------------------------------------------------------------------
// What is asked with
// ---------------------------------------------------------------------------
/// A setting is there and not empty.
pub open spec fn is_set(v: Option<String>, s: Seq<char>) -> bool {
    (v matches Some(t) && t@ == s) && s.len() > 0
}

/// A setting is not there, or is empty.
pub open spec fn is_missing(v: Option<String>) -> bool {
    v matches Some(t) ==> t@.len() == 0
}

/// A cluster of version 1 or 2c is asked with its community.
pub proof fn law_community_identifies(
    c: SnmpClusterConfig,
    r: Result<SnmpCommand, String>,
    program: Seq<char>,
    target: Seq<char>,
    oid: Seq<char>,
    community: Seq<char>,
)
    requires
        asks(r, program, configured(c), target, oid),
        c.version != SnmpVersion::V3,
    ensures
        is_set(c.community, community) ==> (r matches Ok(cmd) && {
            &&& cmd.program@ == program
            &&& c.version == SnmpVersion::V1 ==> texts(cmd.args@) == seq![
                "-v1"@,
                "-c"@,
                community,
                target,
                oid,
            ]
            &&& c.version == SnmpVersion::V2c ==> texts(cmd.args@) == seq![
                "-v2c"@,
                "-c"@,
                community,
                target,
                oid,
            ]
        }),
        is_missing(c.community) ==> r is Err,
{
    if is_set(c.community, community) {
        assert(seq![version_option(c.version), "-c"@, community] + seq![target, oid] =~= seq![
            version_option(c.version),
            "-c"@,
            community,
            target,
            oid,
        ]);
    }
}

/// A cluster of version 3 is asked with its user and security level, with
/// authentication and secrecy as that level needs them, and is refused where anything
/// that is needed is missing.
pub proof fn law_user_identifies(
    c: SnmpClusterConfig,
    r: Result<SnmpCommand, String>,
    program: Seq<char>,
    target: Seq<char>,
    oid: Seq<char>,
    user: Seq<char>,
    level: Seq<char>,
    a: Seq<char>,
    aa: Seq<char>,
    x: Seq<char>,
    xx: Seq<char>,
)
    requires
        asks(r, program, configured(c), target, oid),
        c.version == SnmpVersion::V3,
    ensures
        ({
            let named = is_set(c.user, user) && is_set(c.security_level, level);
            let auth = is_set(c.auth_protocol, a) && is_set(c.auth_password, aa);
            let secret = is_set(c.priv_protocol, x) && is_set(c.priv_password, xx);
            let no_auth = is_missing(c.auth_protocol) || is_missing(c.auth_password);
            let no_secret = is_missing(c.priv_protocol) || is_missing(c.priv_password);
            &&& named && level == "noAuthNoPriv"@ ==> (r matches Ok(cmd) && texts(cmd.args@)
                == seq!["-v3"@, "-l"@, level, "-u"@, user, target, oid])
            &&& named && level == "authNoPriv"@ && auth ==> (r matches Ok(cmd) && texts(cmd.args@)
                == seq![
                "-v3"@,
                "-l"@,
                level,
                "-u"@,
                user,
                "-a"@,
                a,
                "-A"@,
                aa,
                target,
                oid,
            ])
            &&& named && level == "authPriv"@ && auth && secret ==> (r matches Ok(cmd) && texts(
                cmd.args@,
            ) == seq![
                "-v3"@,
                "-l"@,
                level,
                "-u"@,
                user,
                "-a"@,
                a,
                "-A"@,
                aa,
                "-x"@,
                x,
                "-X"@,
                xx,
                target,
                oid,
            ])
            &&& is_missing(c.user) || is_missing(c.security_level) ==> r is Err
            &&& named && (level == "authNoPriv"@ || level == "authPriv"@) && no_auth ==> r is Err
            &&& named && level == "authPriv"@ && no_secret ==> r is Err
            &&& named && level != "noAuthNoPriv"@ && level != "authNoPriv"@ && level != "authPriv"@
                ==> r is Err
            &&& r matches Ok(cmd) ==> cmd.program@ == program
        }),
{
    reveal_strlit("noAuthNoPriv");
    reveal_strlit("authNoPriv");
    reveal_strlit("authPriv");
    assert("noAuthNoPriv"@.len() == 12 && "authNoPriv"@.len() == 10 && "authPriv"@.len() == 8);
    let base = seq!["-v3"@, "-l"@, level, "-u"@, user];
    let end = seq![target, oid];
    let auth = seq!["-a"@, a, "-A"@, aa];
    let secret = seq!["-x"@, x, "-X"@, xx];
    assert(base + end =~= seq!["-v3"@, "-l"@, level, "-u"@, user, target, oid]);
    assert(base + auth + end =~= seq![
        "-v3"@,
        "-l"@,
        level,
        "-u"@,
        user,
        "-a"@,
        a,
        "-A"@,
        aa,
        target,
        oid,
    ]);
    assert(base + auth + secret + end =~= seq![
        "-v3"@,
        "-l"@,
        level,
        "-u"@,
        user,
        "-a"@,
        a,
        "-A"@,
        aa,
        "-x"@,
        x,
        "-X"@,
        xx,
        target,
        oid,
    ]);
}

/// All clusters are accepted where each of them is; else the error is that of the
/// first one that is not.
pub proof fn law_first_refused_cluster_counts(clusters: Seq<SnmpClusterConfig>, n: int, k: int)
    requires
        0 <= k < n <= clusters.len(),
    ensures
        (forall|i: int|
            0 <= i < n ==> identity_args(configured(#[trigger] clusters[i])) is Ok)
            ==> first_refused(clusters, n) is None,
        (forall|i: int| 0 <= i < k ==> identity_args(configured(#[trigger] clusters[i])) is Ok)
            && identity_args(configured(clusters[k])) is Err ==> first_refused(clusters, n) == Some(
            identity_args(configured(clusters[k]))->Err_0,
        ),
    decreases n,
{
    lemma_none_refused(clusters, n);
    if k < n - 1 {
        law_first_refused_cluster_counts(clusters, n - 1, k);
    } else {
        lemma_none_refused(clusters, n - 1);
    }
}

proof fn lemma_none_refused(clusters: Seq<SnmpClusterConfig>, n: int)
    requires
        n <= clusters.len(),
    ensures
        (forall|i: int|
            0 <= i < n ==> identity_args(configured(#[trigger] clusters[i])) is Ok)
            ==> first_refused(clusters, n) is None,
    decreases n,
{
    if n > 0 {
        lemma_none_refused(clusters, n - 1);
    }
}

/// What a program printed counts whether or not it ended well; one that could not be
/// run is an error that names it.
pub proof fn law_printed_counts_however_it_ended(
    program: Seq<char>,
    a: ProcessOutput,
    b: ProcessOutput,
    e: String,
)
    requires
        a.stdout@ == b.stdout@,
    ensures
        printed(program, Ok::<ProcessOutput, String>(a)) == printed(
            program,
            Ok::<ProcessOutput, String>(b),
        ),
        printed(program, Ok::<ProcessOutput, String>(a)) is Ok,
        printed(program, Err::<ProcessOutput, String>(e)) == Err::<Seq<char>, Seq<char>>(
            "failed to run "@ + program + ": "@ + e@,
        ),
{
}

/// The message of a refused cluster names the first setting that it lacks, under the
/// name that it has in the configuration, and the version that needs it.
pub proof fn law_lacking_setting_is_named(
    c: SnmpClusterConfig,
    level: Seq<char>,
    user: Seq<char>,
    a: Seq<char>,
    aa: Seq<char>,
    x: Seq<char>,
)
    ensures
        ({
            let r = identity_args(configured(c));
            let v3 = c.version == SnmpVersion::V3;
            let leveled = is_set(c.user, user) && is_set(c.security_level, level);
            let with_auth = leveled && (level == "authNoPriv"@ || level == "authPriv"@);
            let authed = is_set(c.auth_protocol, a) && is_set(c.auth_password, aa);
            &&& c.version == SnmpVersion::V1 && is_missing(c.community) ==> r == Err::<
                Seq<Seq<char>>,
                Seq<char>,
            >("SNMP "@ + "V1"@ + " requires `"@ + "community"@ + "` to be set"@)
            &&& c.version == SnmpVersion::V2c && is_missing(c.community) ==> r == Err::<
                Seq<Seq<char>>,
                Seq<char>,
            >("SNMP "@ + "V2c"@ + " requires `"@ + "community"@ + "` to be set"@)
            &&& v3 && is_missing(c.user) ==> r == Err::<Seq<Seq<char>>, Seq<char>>(
                "SNMP "@ + "V3"@ + " requires `"@ + "user"@ + "` to be set"@,
            )
            &&& v3 && is_set(c.user, user) && is_missing(c.security_level) ==> r == Err::<
                Seq<Seq<char>>,
                Seq<char>,
            >("SNMP "@ + "V3"@ + " requires `"@ + "security_level"@ + "` to be set"@)
            &&& v3 && with_auth && is_missing(c.auth_protocol) ==> r == Err::<
                Seq<Seq<char>>,
                Seq<char>,
            >("SNMP "@ + "V3"@ + " requires `"@ + "auth_protocol"@ + "` to be set"@)
            &&& v3 && with_auth && is_set(c.auth_protocol, a) && is_missing(c.auth_password) ==> r
                == Err::<Seq<Seq<char>>, Seq<char>>(
                "SNMP "@ + "V3"@ + " requires `"@ + "auth_password"@ + "` to be set"@,
            )
            &&& v3 && leveled && level == "authPriv"@ && authed && is_missing(c.priv_protocol) ==> r
                == Err::<Seq<Seq<char>>, Seq<char>>(
                "SNMP "@ + "V3"@ + " requires `"@ + "priv_protocol"@ + "` to be set"@,
            )
            &&& v3 && leveled && level == "authPriv"@ && authed && is_set(c.priv_protocol, x)
                && is_missing(c.priv_password) ==> r == Err::<Seq<Seq<char>>, Seq<char>>(
                "SNMP "@ + "V3"@ + " requires `"@ + "priv_password"@ + "` to be set"@,
            )
            &&& v3 && leveled && level != "noAuthNoPriv"@ && level != "authNoPriv"@ && level
                != "authPriv"@ ==> r == Err::<Seq<Seq<char>>, Seq<char>>(
                "invalid security_level: "@ + level,
            )
        }),
{
    reveal_strlit("noAuthNoPriv");
    reveal_strlit("authNoPriv");
    reveal_strlit("authPriv");
    assert("noAuthNoPriv"@.len() == 12 && "authNoPriv"@.len() == 10 && "authPriv"@.len() == 8);
}

/// The target of a command is its last argument but one; of a single argument it is that
/// one, and without arguments it is not known.
pub proof fn law_target_stands_before_the_question(
    before: Seq<Seq<char>>,
    target: Seq<char>,
    oid: Seq<char>,
)
    ensures
        asked(before.push(target).push(oid)) == target,
        asked(seq![target]) == target,
        asked(Seq::<Seq<char>>::empty()) == "unknown"@,
{
}

/// A command that could not be made has the message of what is lacking, and one that was
/// made has what identifies the one who asks.
pub proof fn law_made_arguments_are_the_wanted_ones(
    r: Result<Vec<String>, String>,
    t: TransportView,
)
    requires
        args_are(r, identity_args(t)),
    ensures
        r matches Ok(v) ==> identity_args(t) == Ok::<Seq<Seq<char>>, Seq<char>>(texts(v@)),
        r matches Err(e) ==> identity_args(t) == Err::<Seq<Seq<char>>, Seq<char>>(e@),
{
}

} // verus!
