//! What an application is started with: its arguments, the environment, and the
//! defaults. A flag goes before its environment variable, which goes before the
//! default.
use vstd::prelude::*;

use crate::text::{
    begins, chars, concat, has, holds, natural, opt_chars, read_u64, replace, replaced, same, slice,
    stands_at, string, views,
};

verus! {

/// The environment variables that an application reads.
#[derive(Debug)]
pub struct Environment {
    pub app_key: Option<String>,
    pub dda_uri: Option<String>,
    pub plt_uri: Option<String>,
    pub modbus_uri: Option<String>,
    pub remote_dev: Option<String>,
    pub config_fp: Option<String>,
    pub healthcheck_port: Option<String>,
    pub debug: Option<String>,
}

/// What an application runs with.
#[derive(Debug, Clone)]
pub struct RunOptions {
    pub dda_uri: String,
    pub plt_uri: String,
    pub modbus_uri: String,
    pub app_key: String,
    pub config_fp: Option<String>,
    pub healthcheck_port: u16,
    pub debug: bool,
    /// How long a failed application waits before it ends, in seconds.
    pub error_wait_secs: u64,
}

/// Flags and their values, in order.
pub type Flags = Seq<(Seq<char>, Seq<char>)>;

/// The flags that take a value, with their values. An argument that does not begin
/// with two dashes is passed over, and so is a last flag without a value.
pub open spec fn flags_of(args: Seq<Seq<char>>) -> Flags
    decreases args.len(),
{
    if args.len() == 0 {
        Seq::empty()
    } else if args[0] == "--debug"@ {
        flags_of(args.skip(1))
    } else if stands_at(args[0], "--"@, 0) {
        if args.len() >= 2 {
            seq![(args[0].skip(2), args[1])] + flags_of(args.skip(2))
        } else {
            Seq::empty()
        }
    } else {
        flags_of(args.skip(1))
    }
}

/// Whether the debug flag is given.
pub open spec fn has_debug(args: Seq<Seq<char>>) -> bool
    decreases args.len(),
{
    if args.len() == 0 {
        false
    } else if args[0] == "--debug"@ {
        true
    } else if stands_at(args[0], "--"@, 0) {
        args.len() >= 2 && has_debug(args.skip(2))
    } else {
        has_debug(args.skip(1))
    }
}

/// The value of a flag: the last one given.
pub open spec fn flag_value(flags: Flags, key: Seq<char>) -> Option<Seq<char>>
    decreases flags.len(),
{
    if flags.len() == 0 {
        None
    } else if flags.last().0 == key {
        Some(flags.last().1)
    } else {
        flag_value(flags.drop_last(), key)
    }
}

/// A value that is there and not empty.
pub open spec fn set_value(v: Option<String>) -> Option<Seq<char>> {
    match v {
        Some(s) => if s@.len() > 0 {
            Some(s@)
        } else {
            None
        },
        None => None,
    }
}

/// What a flag or else a variable gives.
pub open spec fn given(flags: Flags, key: Seq<char>, variable: Option<String>) -> Option<Seq<char>> {
    match flag_value(flags, key) {
        Some(v) => Some(v),
        None => set_value(variable),
    }
}

/// What a flag or else a variable or else the default gives.
pub open spec fn picked(
    flags: Flags,
    key: Seq<char>,
    variable: Option<String>,
    default: Seq<char>,
) -> Seq<char> {
    match given(flags, key, variable) {
        Some(v) => v,
        None => default,
    }
}

/// An address, with this machine replaced by another where one is named.
pub open spec fn rewritten(uri: Seq<char>, host: Option<Seq<char>>) -> Seq<char> {
    match host {
        Some(h) => replaced(replaced(uri, "localhost"@, h), "127.0.0.1"@, h),
        None => uri,
    }
}

/// The port that a text names; the default if it names none.
pub open spec fn port_of(text: Seq<char>) -> u16 {
    match natural(text) {
        Some(n) => if n <= 65535 {
            n as u16
        } else {
            49200
        },
        None => 49200,
    }
}

impl RunOptions {
    /// Whether these are the options that arguments and environment give.
    pub open spec fn are_from(&self, env: Environment, args: Seq<Seq<char>>) -> bool {
        let flags = flags_of(args);
        let host = given(flags, "remote-dev"@, env.remote_dev);
        &&& self.dda_uri@ == rewritten(
            picked(flags, "dda-uri"@, env.dda_uri, "127.0.0.1:50051"@),
            host,
        )
        &&& self.plt_uri@ == rewritten(
            picked(flags, "plt-uri"@, env.plt_uri, "localhost:50053"@),
            host,
        )
        &&& self.modbus_uri@ == rewritten(
            picked(flags, "modbus-uri"@, env.modbus_uri, "localhost:50054"@),
            host,
        )
        &&& self.app_key@ == picked(flags, "app-key"@, env.app_key, ""@)
        &&& opt_chars(self.config_fp) == given(flags, "config-fp"@, env.config_fp)
        &&& self.healthcheck_port == port_of(
            picked(flags, "healthcheck-port"@, env.healthcheck_port, "49200"@),
        )
        &&& self.debug == (has_debug(args) || opt_chars(env.debug) == Some("1"@))
        &&& self.error_wait_secs == 10
    }

    /// The options that arguments and environment give.
    pub fn from_env(env: &Environment, args: &Vec<String>) -> (o: RunOptions)
        ensures
            o.are_from(*env, views(args@)),
    {
        let (cli, debug_flag) = parse_flags(args);
        let mut dda_uri = pick(&cli, "dda-uri", &env.dda_uri, "127.0.0.1:50051");
        let mut plt_uri = pick(&cli, "plt-uri", &env.plt_uri, "localhost:50053");
        let mut modbus_uri = pick(&cli, "modbus-uri", &env.modbus_uri, "localhost:50054");
        if let Some(host) = look_up(&cli, "remote-dev", &env.remote_dev) {
            dda_uri = rewrite(dda_uri.as_str(), host.as_str());
            plt_uri = rewrite(plt_uri.as_str(), host.as_str());
            modbus_uri = rewrite(modbus_uri.as_str(), host.as_str());
        }
        let config_fp = look_up(&cli, "config-fp", &env.config_fp);
        let port_text = pick(&cli, "healthcheck-port", &env.healthcheck_port, "49200");
        let healthcheck_port: u16 = match read_u64(port_text.as_str()) {
            Some(n) => {
                if n <= 65535 {
                    n as u16
                } else {
                    49200
                }
            },
            None => 49200,
        };
        let debug_set = match &env.debug {
            Some(v) => same(v.as_str(), "1"),
            None => false,
        };
        RunOptions {
            dda_uri,
            plt_uri,
            modbus_uri,
            app_key: pick(&cli, "app-key", &env.app_key, ""),
            config_fp,
            healthcheck_port,
            debug: debug_flag || debug_set,
            error_wait_secs: 10,
        }
    }
}

/// The model of a list of flags.
pub open spec fn pairs(list: Seq<(String, String)>) -> Flags {
    Seq::new(list.len(), |i: int| (list[i].0@, list[i].1@))
}

fn without_dashes(arg: &str) -> (r: Option<String>)
    ensures
        match r {
            Some(s) => stands_at(arg@, "--"@, 0) && s@ == arg@.skip(2),
            None => !stands_at(arg@, "--"@, 0),
        },
{
    if begins(arg, "--") {
        proof {
            reveal_strlit("--");
        }
        let v = chars(arg);
        let s = slice(&v, 2, v.len());
        assert(v@.subrange(2, v@.len() as int) =~= arg@.skip(2));
        Some(s)
    } else {
        None
    }
}

fn parse_flags(args: &Vec<String>) -> (r: (Vec<(String, String)>, bool))
    ensures
        pairs(r.0@) == flags_of(views(args@)),
        r.1 == has_debug(views(args@)),
{
    let ghost all = views(args@);
    let mut cli: Vec<(String, String)> = Vec::new();
    let mut debug = false;
    let mut i: usize = 0;
    assert(all.skip(0) =~= all);
    assert(pairs(cli@) + flags_of(all) =~= flags_of(all));
    while i < args.len()
        invariant
            i <= args@.len(),
            all == views(args@),
            pairs(cli@) + flags_of(all.skip(i as int)) == flags_of(all),
            has_debug(all) == (debug || has_debug(all.skip(i as int))),
        decreases args@.len() - i,
    {
        let ghost rest = all.skip(i as int);
        assert(rest[0] == args@[i as int]@);
        assert(rest.skip(1) =~= all.skip(i as int + 1));
        if same(args[i].as_str(), "--debug") {
            debug = true;
            i += 1;
        } else {
            match without_dashes(args[i].as_str()) {
                Some(key) => {
                    if i + 1 < args.len() {
                        assert(rest[1] == args@[i as int + 1]@);
                        assert(rest.skip(2) =~= all.skip(i as int + 2));
                        let ghost before = pairs(cli@);
                        let ghost tail = flags_of(all.skip(i as int + 2));
                        let ghost name = key@;
                        cli.push((key, args[i + 1].clone()));
                        let ghost pair = (name, args@[i as int + 1]@);
                        assert(pairs(cli@) =~= before + seq![pair]);
                        assert(before + (seq![pair] + tail) =~= (before + seq![pair]) + tail);
                        i += 2;
                    } else {
                        i += 1;
                        assert(all.skip(i as int) =~= Seq::empty());
                    }
                },
                None => {
                    i += 1;
                },
            }
        }
    }
    assert(all.skip(i as int) =~= Seq::empty());
    assert(pairs(cli@) + Seq::empty() =~= pairs(cli@));
    (cli, debug)
}

fn value_of(cli: &Vec<(String, String)>, key: &str) -> (r: Option<String>)
    ensures
        opt_chars(r) == flag_value(pairs(cli@), key@),
{
    let ghost all = pairs(cli@);
    let mut i: usize = cli.len();
    assert(all.take(all.len() as int) =~= all);
    while i > 0
        invariant
            i <= cli@.len(),
            all == pairs(cli@),
            flag_value(all, key@) == flag_value(all.take(i as int), key@),
        decreases i,
    {
        i -= 1;
        proof {
            assert(all.take(i as int + 1).drop_last() =~= all.take(i as int));
            assert(all.take(i as int + 1).last() == all[i as int]);
        }
        if same(cli[i].0.as_str(), key) {
            return Some(cli[i].1.clone());
        }
    }
    None
}

fn look_up(cli: &Vec<(String, String)>, key: &str, variable: &Option<String>) -> (r: Option<String>)
    ensures
        opt_chars(r) == given(pairs(cli@), key@, *variable),
{
    match value_of(cli, key) {
        Some(v) => Some(v),
        None => match variable {
            Some(s) => {
                let v = chars(s.as_str());
                if v.len() > 0 {
                    Some(string(&v))
                } else {
                    None
                }
            },
            None => None,
        },
    }
}

fn pick(cli: &Vec<(String, String)>, key: &str, variable: &Option<String>, default: &str) -> (r: String)
    ensures
        r@ == picked(pairs(cli@), key@, *variable, default@),
{
    match look_up(cli, key, variable) {
        Some(v) => v,
        None => default.to_owned(),
    }
}

fn rewrite(uri: &str, host: &str) -> (r: String)
    ensures
        r@ == rewritten(uri@, Some(host@)),
{
    proof {
        reveal_strlit("localhost");
        reveal_strlit("127.0.0.1");
    }
    let once = replace(uri, "localhost", host);
    replace(once.as_str(), "127.0.0.1", host)
}

/// An address with a scheme.
pub open spec fn with_scheme(uri: Seq<char>) -> Seq<char> {
    if holds(uri, "://"@) {
        uri
    } else {
        "http://"@ + uri
    }
}

/// An address with a scheme: `host:port` becomes `http://host:port`.
pub fn normalize_uri(uri: &str) -> (r: String)
    ensures
        r@ == with_scheme(uri@),
{
    proof {
        reveal_strlit("://");
    }
    if has(uri, "://") {
        uri.to_owned()
    } else {
        concat("http://", uri)
    }
}

/// An address with a scheme stays as it is.
pub proof fn law_normalizing_twice(uri: Seq<char>)
    ensures
        holds(with_scheme(uri), "://"@),
        with_scheme(with_scheme(uri)) == with_scheme(uri),
{
    if !holds(uri, "://"@) {
        reveal_strlit("://");
        reveal_strlit("http://");
        let s = "http://"@ + uri;
        assert(s.subrange(4, 7) =~= "://"@);
        assert(stands_at(s, "://"@, 4));
    }
}

// ---- the command line --------------------------------------------------------------------

/// What is exported where, as the arguments after `export` say it: the file is the
/// last argument that is no flag, and the name is the last one given.
pub open spec fn export_scan(
    args: Seq<Seq<char>>,
    path: Seq<char>,
    name: Option<Seq<char>>,
) -> (Seq<char>, Option<Seq<char>>)
    decreases args.len(),
{
    if args.len() == 0 {
        (path, name)
    } else if args[0] == "--app-name"@ {
        if args.len() >= 2 {
            export_scan(args.skip(2), path, Some(args[1]))
        } else {
            (path, None)
        }
    } else if !stands_at(args[0], "--"@, 0) {
        export_scan(args.skip(1), args[0], name)
    } else {
        export_scan(args.skip(1), path, name)
    }
}

fn scan_export(args: &Vec<String>, start: usize) -> (r: (String, Option<String>))
    requires
        start <= args@.len(),
    ensures
        (r.0@, opt_chars(r.1)) == export_scan(
            views(args@).skip(start as int),
            "./doover_config.json"@,
            None,
        ),
{
    let ghost all = views(args@);
    let ghost whole = all.skip(start as int);
    let mut path = "./doover_config.json".to_owned();
    let mut name: Option<String> = None;
    let mut i: usize = start;
    while i < args.len()
        invariant
            start <= i <= args@.len(),
            all == views(args@),
            whole == all.skip(start as int),
            export_scan(all.skip(i as int), path@, opt_chars(name)) == export_scan(
                whole,
                "./doover_config.json"@,
                None,
            ),
        decreases args@.len() - i,
    {
        let ghost rest = all.skip(i as int);
        assert(rest[0] == args@[i as int]@);
        assert(rest.skip(1) =~= all.skip(i as int + 1));
        if same(args[i].as_str(), "--app-name") {
            if i + 1 < args.len() {
                assert(rest[1] == args@[i as int + 1]@);
                assert(rest.skip(2) =~= all.skip(i as int + 2));
                name = Some(args[i + 1].clone());
                i += 2;
            } else {
                return (path, None);
            }
        } else {
            if !begins(args[i].as_str(), "--") {
                path = args[i].clone();
            }
            i += 1;
        }
    }
    assert(all.skip(i as int) =~= Seq::empty());
    (path, name)
}

/// What an application was started to do.
#[derive(Debug)]
pub enum Command {
    /// Write its schemas into a file, under a name.
    Export { path: String, app_name: String },
    /// Run.
    Run(RunOptions),
}

/// The name that an application is exported under: the one given, or else its key,
/// or else that of its program.
pub open spec fn export_name(
    name: Option<Seq<char>>,
    key: Option<String>,
    stem: Option<&str>,
) -> Seq<char> {
    match name {
        Some(n) => n,
        None => match set_value(key) {
            Some(k) => k,
            None => match stem {
                Some(s) => s@,
                None => "app"@,
            },
        },
    }
}

/// What the arguments ask for. The first argument is the program itself, whose name
/// without directory and extension is `stem`.
pub fn command(argv: &Vec<String>, env: &Environment, stem: Option<&str>) -> (c: Command)
    ensures
        if argv@.len() >= 2 && argv@[1]@ == "export"@ {
            let scan = export_scan(views(argv@).skip(2), "./doover_config.json"@, None);
            match c {
                Command::Export { path, app_name } => path@ == scan.0 && app_name@ == export_name(
                    scan.1,
                    env.app_key,
                    stem,
                ),
                Command::Run(_) => false,
            }
        } else {
            match c {
                Command::Export { .. } => false,
                Command::Run(o) => o.are_from(
                    *env,
                    if argv@.len() == 0 {
                        Seq::empty()
                    } else {
                        views(argv@).skip(1)
                    },
                ),
            }
        },
{
    if argv.len() >= 2 && same(argv[1].as_str(), "export") {
        let (path, name) = scan_export(argv, 2);
        let none: Vec<(String, String)> = Vec::new();
        assert(pairs(none@) =~= Seq::empty());
        let app_name = match name {
            Some(n) => n,
            None => match look_up(&none, "", &env.app_key) {
                Some(k) => k,
                None => match stem {
                    Some(s) => s.to_owned(),
                    None => "app".to_owned(),
                },
            },
        };
        return Command::Export { path, app_name };
    }
    let mut args: Vec<String> = Vec::new();
    let mut i: usize = 1;
    while i < argv.len()
        invariant
            1 <= i,
            i <= argv@.len() || (argv@.len() == 0 && i == 1),
            args@.len() == i - 1,
            forall|j: int| 0 <= j < i - 1 ==> (#[trigger] args@[j])@ == argv@[j + 1]@,
        decreases argv@.len() - i,
    {
        args.push(argv[i].clone());
        i += 1;
    }
    proof {
        if argv@.len() == 0 {
            assert(views(args@) =~= Seq::empty());
        } else {
            assert(views(args@) =~= views(argv@).skip(1));
        }
    }
    Command::Run(RunOptions::from_env(env, &args))
}

/// What is printed once schemas are written.
pub fn export_message(app_name: &str, path: &str, wrote_ui: bool) -> (m: String)
    ensures
        m@ == "wrote config_schema"@ + (if wrote_ui {
            " + ui_schema"@
        } else {
            ""@
        }) + " for '"@ + app_name@ + "' to "@ + path@,
{
    let mut m = concat(
        "wrote config_schema",
        if wrote_ui {
            " + ui_schema"
        } else {
            ""
        },
    );
    m.append(" for '");
    m.append(app_name);
    m.append("' to ");
    m.append(path);
    m
}

// ---- laws ------------------------------------------------------------------------------

/// A flag goes before its variable, and a variable that is set before the default.
pub proof fn law_flags_go_first(
    flags: Flags,
    key: Seq<char>,
    variable: Option<String>,
    default: Seq<char>,
)
    ensures
        flag_value(flags, key) is Some ==> picked(flags, key, variable, default) == flag_value(
            flags,
            key,
        )->0,
        flag_value(flags, key) is None && set_value(variable) is Some ==> picked(
            flags,
            key,
            variable,
            default,
        ) == set_value(variable)->0,
        flag_value(flags, key) is None && set_value(variable) is None ==> picked(
            flags,
            key,
            variable,
            default,
        ) == default,
{
}

} // verus!
