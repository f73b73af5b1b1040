//! How command lines are read.
use vstd::prelude::*;

use crate::cli::{
    broker_rules, broker_socket, command_line, daemon_options, daemon_rules, form_of, given,
    host_options, hyphened, is_option, is_rule, mcp_rules, scan, split_option, supervisor_rules,
    value_in, values_in, worker_host_rules, CliFault, CommandView, Form, HostView, OptionRule,
    ScanView,
};
use crate::host::value_of;
use crate::select::{first_found, first_missing};
use crate::text_laws::two_pieces;

verus! {

// ---------------------------------------------------------------------------------------------
// Options
// ---------------------------------------------------------------------------------------------

/// The name of an option: hyphens and a word, without an equals sign.
pub open spec fn is_name(name: Seq<char>) -> bool {
    &&& name.len() > 2
    &&& name[0] == '-'
    &&& name != "--help"@
    &&& forall|i: int| 0 <= i < name.len() ==> #[trigger] name[i] != '='
}

proof fn names_are_read(name: Seq<char>, value: Seq<char>)
    requires
        is_name(name),
    ensures
        name != "--"@,
        name != "-h"@,
        hyphened(name),
        split_option(name) == (name, None::<Seq<char>>),
        hyphened(name + seq!['='] + value),
        name + seq!['='] + value != "--"@,
        name + seq!['='] + value != "-h"@,
        name + seq!['='] + value != "--help"@,
        split_option(name + seq!['='] + value) == (name, Some(value)),
{
    reveal_strlit("--");
    reveal_strlit("-h");
    reveal_strlit("--help");
    two_pieces(name, value);
    let whole = name + seq!['='] + value;
    assert(name.push('=') + value =~= whole);
    assert(whole[0] == name[0]);
    assert(whole[name.len() as int] == '=');
    if whole == "--help"@ {
        assert("--help"@[name.len() as int] == '=');
    }
}

/// An option that takes a value may be given with it behind an equals sign or in the next argument;
/// both say the same.
pub proof fn values_stand_behind_or_beside(
    name: Seq<char>,
    value: Seq<char>,
    rest: Seq<Seq<char>>,
    rules: Seq<OptionRule>,
    nested: bool,
)
    requires
        is_name(name),
        !hyphened(value),
        form_of(rules, name) == Some(Form::Single) || form_of(rules, name) == Some(Form::Many),
    ensures
        scan(seq![name, value] + rest, rules, nested) == scan(
            seq![name + seq!['='] + value] + rest,
            rules,
            nested,
        ),
        scan(rest, rules, nested) is Ok && (form_of(rules, name) == Some(Form::Many) || !given(
            scan(rest, rules, nested)->Ok_0.options,
            name,
        )) ==> scan(seq![name, value] + rest, rules, nested) == Ok::<ScanView, CliFault>(
            ScanView {
                options: seq![(name, value)] + scan(rest, rules, nested)->Ok_0.options,
                others: scan(rest, rules, nested)->Ok_0.others,
            },
        ),
{
    names_are_read(name, value);
    let two = seq![name, value] + rest;
    let one = seq![name + seq!['='] + value] + rest;
    assert(two[0] == name && two[1] == value);
    assert(two.skip(2) =~= rest);
    assert(one[0] == name + seq!['='] + value);
    assert(one.drop_first() =~= rest);
}

/// An option that may be given once is refused where it is given again, an option that the command
/// does not take always, and an option without its value too.
pub proof fn wrong_options_are_refused(
    name: Seq<char>,
    value: Seq<char>,
    rest: Seq<Seq<char>>,
    rules: Seq<OptionRule>,
    nested: bool,
)
    requires
        is_name(name),
        !hyphened(value),
    ensures
        form_of(rules, name) is None ==> scan(seq![name] + rest, rules, nested) == Err::<
            ScanView,
            CliFault,
        >(CliFault::UnexpectedArgument(name)),
        form_of(rules, name) == Some(Form::Single) && scan(rest, rules, nested) is Ok && given(
            scan(rest, rules, nested)->Ok_0.options,
            name,
        ) ==> scan(seq![name, value] + rest, rules, nested) == Err::<ScanView, CliFault>(
            CliFault::RepeatedOption(name),
        ),
        form_of(rules, name) == Some(Form::Single) ==> scan(seq![name], rules, nested) == Err::<
            ScanView,
            CliFault,
        >(CliFault::MissingValue(name)),
{
    names_are_read(name, value);
    let one = seq![name] + rest;
    assert(one[0] == name);
    let two = seq![name, value] + rest;
    assert(two[0] == name && two[1] == value);
    assert(two.skip(2) =~= rest);
    assert(seq![name][0] == name);
}

/// An option that is given counts before the variable that stands for it.
pub proof fn options_count_before_variables(
    s: ScanView,
    env: Seq<(String, String)>,
    name: Seq<char>,
    variable: Seq<char>,
    i: int,
)
    ensures
        0 <= i < s.options.len() && s.options[i].0 == name && (forall|j: int|
            0 <= j < i ==> (#[trigger] s.options[j]).0 != name) ==> value_in(
            s,
            env,
            name,
            variable,
        ) == Some(s.options[i].1),
        !given(s.options, name) && variable.len() > 0 ==> value_in(s, env, name, variable)
            == value_of(env, variable),
        !given(s.options, name) && variable.len() == 0 ==> value_in(s, env, name, variable) is None,
{
    let p = is_option(name);
    if 0 <= i < s.options.len() && s.options[i].0 == name && (forall|j: int|
        0 <= j < i ==> (#[trigger] s.options[j]).0 != name) {
        first_found(s.options, p, i);
    }
    if !given(s.options, name) {
        assert forall|j: int| 0 <= j < s.options.len() implies !p(#[trigger] s.options[j]) by {}
        first_missing(s.options, p);
    }
}

// ---------------------------------------------------------------------------------------------
// Commands
// ---------------------------------------------------------------------------------------------

proof fn state_dir_is_a_name()
    ensures
        is_name("--state-dir"@),
        "--state-dir"@.len() == 11,
{
    reveal_strlit("--help");
    reveal_strlit("--state-dir");
    let s = "--state-dir"@;
    assert(s[0] == '-' && s[1] == '-' && s[2] == 's' && s[3] == 't' && s[4] == 'a' && s[5] == 't' && s[6] == 'e' && s[7] == '-' && s[8] == 'd' && s[9] == 'i' && s[10] == 'r');
    assert(s.len() == 11);
    assert("--help"@.len() == 6);
    assert forall|i: int| 0 <= i < s.len() implies #[trigger] s[i] != '=' by {}
}

proof fn socket_is_a_name()
    ensures
        is_name("--socket"@),
        "--socket"@.len() == 8,
{
    reveal_strlit("--help");
    reveal_strlit("--socket");
    let s = "--socket"@;
    assert(s[0] == '-' && s[1] == '-' && s[2] == 's' && s[3] == 'o' && s[4] == 'c' && s[5] == 'k' && s[6] == 'e' && s[7] == 't');
    assert(s.len() == 8);
    assert("--help"@.len() == 6);
    assert forall|i: int| 0 <= i < s.len() implies #[trigger] s[i] != '=' by {}
}

proof fn session_id_is_a_name()
    ensures
        is_name("--session-id"@),
        "--session-id"@.len() == 12,
{
    reveal_strlit("--help");
    reveal_strlit("--session-id");
    let s = "--session-id"@;
    assert(s[0] == '-' && s[1] == '-' && s[2] == 's' && s[3] == 'e' && s[4] == 's' && s[5] == 's' && s[6] == 'i' && s[7] == 'o' && s[8] == 'n' && s[9] == '-' && s[10] == 'i' && s[11] == 'd');
    assert(s.len() == 12);
    assert("--help"@.len() == 6);
    assert forall|i: int| 0 <= i < s.len() implies #[trigger] s[i] != '=' by {}
}

proof fn supervisor_capability_is_a_name()
    ensures
        is_name("--supervisor-capability"@),
        "--supervisor-capability"@.len() == 23,
{
    reveal_strlit("--help");
    reveal_strlit("--supervisor-capability");
    let s = "--supervisor-capability"@;
    assert(s[0] == '-' && s[1] == '-' && s[2] == 's' && s[3] == 'u' && s[4] == 'p' && s[5] == 'e' && s[6] == 'r' && s[7] == 'v' && s[8] == 'i' && s[9] == 's' && s[10] == 'o' && s[11] == 'r' && s[12] == '-' && s[13] == 'c' && s[14] == 'a' && s[15] == 'p' && s[16] == 'a' && s[17] == 'b' && s[18] == 'i' && s[19] == 'l' && s[20] == 'i' && s[21] == 't' && s[22] == 'y');
    assert(s.len() == 23);
    assert("--help"@.len() == 6);
    assert forall|i: int| 0 <= i < s.len() implies #[trigger] s[i] != '=' by {}
}

proof fn session_capability_is_a_name()
    ensures
        is_name("--session-capability"@),
        "--session-capability"@.len() == 20,
{
    reveal_strlit("--help");
    reveal_strlit("--session-capability");
    let s = "--session-capability"@;
    assert(s[0] == '-' && s[1] == '-' && s[2] == 's' && s[3] == 'e' && s[4] == 's' && s[5] == 's' && s[6] == 'i' && s[7] == 'o' && s[8] == 'n' && s[9] == '-' && s[10] == 'c' && s[11] == 'a' && s[12] == 'p' && s[13] == 'a' && s[14] == 'b' && s[15] == 'i' && s[16] == 'l' && s[17] == 'i' && s[18] == 't' && s[19] == 'y');
    assert(s.len() == 20);
    assert("--help"@.len() == 6);
    assert forall|i: int| 0 <= i < s.len() implies #[trigger] s[i] != '=' by {}
}

proof fn option_names_are_names()
    ensures
        is_name("--state-dir"@),
        is_name("--socket"@),
        is_name("--session-id"@),
        is_name("--supervisor-capability"@),
        is_name("--session-capability"@),
        "--state-dir"@.len() == 11,
        "--socket"@.len() == 8,
        "--session-id"@.len() == 12,
        "--supervisor-capability"@.len() == 23,
        "--session-capability"@.len() == 20,
{
    state_dir_is_a_name();
    socket_is_a_name();
    session_id_is_a_name();
    supervisor_capability_is_a_name();
    session_capability_is_a_name();
}

proof fn nothing_is_read_of_nothing(rules: Seq<OptionRule>)
    ensures
        scan(Seq::empty(), rules, false) == Ok::<ScanView, CliFault>(
            ScanView { options: Seq::empty(), others: Seq::empty() },
        ),
{
}

/// The three options of the commands of Hosts, each of which takes one value.
spec fn takes_three(rules: Seq<OptionRule>, option: Seq<char>) -> bool {
    &&& is_name(option)
    &&& option.len() > 11
    &&& form_of(rules, option) == Some(Form::Single)
    &&& form_of(rules, "--state-dir"@) == Some(Form::Single)
    &&& form_of(rules, "--socket"@) == Some(Form::Single)
}

proof fn host_arguments_are_read(
    rules: Seq<OptionRule>,
    option: Seq<char>,
    variable: Seq<char>,
    bearer: Seq<char>,
    state_dir: Seq<char>,
    socket: Seq<char>,
    env: Seq<(String, String)>,
)
    requires
        takes_three(rules, option),
        !hyphened(bearer),
        !hyphened(state_dir),
        !hyphened(socket),
        state_dir.len() > 0,
        socket.len() > 0,
    ensures
        host_options(
            seq![option, bearer, "--state-dir"@, state_dir, "--socket"@, socket],
            env,
            rules,
            option,
            variable,
        ) == Ok::<HostView, CliFault>(HostView { bearer, state_dir, socket: Some(socket) }),
{
    option_names_are_names();
    nothing_is_read_of_nothing(rules);
    let none = Seq::<Seq<char>>::empty();
    let (d, k) = ("--state-dir"@, "--socket"@);
    values_stand_behind_or_beside(k, socket, none, rules, false);
    let last = seq![k, socket];
    assert(last + none =~= last);
    let one = scan(last, rules, false)->Ok_0;
    assert(one.options =~= seq![(k, socket)]);
    assert(one.others.len() == 0);
    assert(!given(one.options, d));
    values_stand_behind_or_beside(d, state_dir, last, rules, false);
    let more = seq![d, state_dir] + last;
    let two = scan(more, rules, false)->Ok_0;
    assert(two.options =~= seq![(d, state_dir), (k, socket)]);
    assert(!given(two.options, option)) by {
        assert forall|i: int| 0 <= i < two.options.len() implies (#[trigger] two.options[i]).0
            != option by {
            if i == 0 {
                assert(two.options[0].0 == d);
            } else {
                assert(two.options[1].0 == k);
            }
        }
    }
    values_stand_behind_or_beside(option, bearer, more, rules, false);
    let all = seq![option, bearer] + more;
    assert(all =~= seq![option, bearer, d, state_dir, k, socket]);
    let s = scan(all, rules, false)->Ok_0;
    assert(s.options =~= seq![(option, bearer), (d, state_dir), (k, socket)]);
    options_count_before_variables(s, env, option, variable, 0);
    options_count_before_variables(s, env, d, "HERDR_PLUGIN_STATE_DIR"@, 1);
    assert forall|j: int| 0 <= j < 2 implies (#[trigger] s.options[j]).0 != k by {
        if j == 0 {
            assert(s.options[0].0 == option);
        } else {
            assert(s.options[1].0 == d);
        }
    }
    options_count_before_variables(s, env, k, "HERDR_COORDINATOR_SOCKET"@, 2);
}

proof fn host_rules_take_three()
    ensures
        takes_three(worker_host_rules(), "--session-id"@),
        takes_three(supervisor_rules(), "--supervisor-capability"@),
        takes_three(mcp_rules(), "--session-capability"@),
{
    option_names_are_names();
    rules_take_three(worker_host_rules(), "--session-id"@);
    rules_take_three(supervisor_rules(), "--supervisor-capability"@);
    rules_take_three(mcp_rules(), "--session-capability"@);
}

proof fn rules_take_three(rules: Seq<OptionRule>, option: Seq<char>)
    requires
        rules.len() == 3,
        rules[0].name@ == option,
        rules[1].name@ == "--state-dir"@,
        rules[2].name@ == "--socket"@,
        rules[0].form == Form::Single,
        rules[1].form == Form::Single,
        rules[2].form == Form::Single,
        is_name(option),
        option.len() > 11,
    ensures
        takes_three(rules, option),
{
    option_names_are_names();
    first_found(rules, is_rule(option), 0);
    first_found(rules, is_rule("--state-dir"@), 1);
    assert forall|j: int| 0 <= j < 2 implies !is_rule("--socket"@)(#[trigger] rules[j]) by {
        if j == 0 {
            assert(rules[0].name@ == option);
        } else {
            assert(rules[1].name@ == "--state-dir"@);
        }
    }
    first_found(rules, is_rule("--socket"@), 2);
}

proof fn command_words_differ()
    ensures
        "workspace"@.len() == 9,
        "daemon"@.len() == 6,
        "call"@.len() == 4,
        "stdio-proxy"@.len() == 11,
        "worker-host"@.len() == 11,
        "supervisor-host"@.len() == 15,
        "popup"@.len() == 5,
        "mcp"@.len() == 3,
        "worker-host"@ != "stdio-proxy"@,
{
    reveal_strlit("workspace");
    reveal_strlit("daemon");
    reveal_strlit("call");
    reveal_strlit("stdio-proxy");
    reveal_strlit("worker-host");
    reveal_strlit("supervisor-host");
    reveal_strlit("popup");
    reveal_strlit("mcp");
    assert("worker-host"@[0] == 'w' && "stdio-proxy"@[0] == 's');
}

/// A Worker Host is given its Session, a state directory and a socket.
#[verifier::rlimit(50)]
pub proof fn worker_hosts_are_given_their_session(
    bearer: Seq<char>,
    state_dir: Seq<char>,
    socket: Seq<char>,
    env: Seq<(String, String)>,
)
    requires
        !hyphened(bearer),
        !hyphened(state_dir),
        !hyphened(socket),
        state_dir.len() > 0,
        socket.len() > 0,
    ensures
        command_line(
            seq!["worker-host"@]
                + seq!["--session-id"@, bearer, "--state-dir"@, state_dir, "--socket"@, socket],
            env,
        ) == Ok::<CommandView, CliFault>(
            CommandView::WorkerHost { session_id: bearer, state_dir, socket: Some(socket) },
        ),
{
    command_words_differ();
    host_rules_take_three();
    host_arguments_are_read(
        worker_host_rules(),
        "--session-id"@,
        ""@,
        bearer,
        state_dir,
        socket,
        env,
    );
    let rest = seq!["--session-id"@, bearer, "--state-dir"@, state_dir, "--socket"@, socket];
    let line = seq!["worker-host"@] + rest;
    assert(line[0] == "worker-host"@);
    assert(line.drop_first() =~= rest);
}

/// A Supervisor Host is given its capability, a state directory and a socket.
#[verifier::rlimit(50)]
pub proof fn supervisor_hosts_are_given_their_capability(
    bearer: Seq<char>,
    state_dir: Seq<char>,
    socket: Seq<char>,
    env: Seq<(String, String)>,
)
    requires
        !hyphened(bearer),
        !hyphened(state_dir),
        !hyphened(socket),
        state_dir.len() > 0,
        socket.len() > 0,
    ensures
        command_line(
            seq!["supervisor-host"@]
                + seq!["--supervisor-capability"@, bearer, "--state-dir"@, state_dir, "--socket"@, socket],
            env,
        ) == Ok::<CommandView, CliFault>(
            CommandView::SupervisorHost { supervisor_capability: bearer, state_dir, socket: Some(socket) },
        ),
{
    command_words_differ();
    host_rules_take_three();
    host_arguments_are_read(
        supervisor_rules(),
        "--supervisor-capability"@,
        "HERDR_SUPERVISOR_CAPABILITY"@,
        bearer,
        state_dir,
        socket,
        env,
    );
    let rest = seq!["--supervisor-capability"@, bearer, "--state-dir"@, state_dir, "--socket"@, socket];
    let line = seq!["supervisor-host"@] + rest;
    assert(line[0] == "supervisor-host"@);
    assert(line.drop_first() =~= rest);
}

/// The popup is given the capability of the Supervisor, a state directory and a socket.
#[verifier::rlimit(50)]
pub proof fn popups_are_given_a_capability(
    bearer: Seq<char>,
    state_dir: Seq<char>,
    socket: Seq<char>,
    env: Seq<(String, String)>,
)
    requires
        !hyphened(bearer),
        !hyphened(state_dir),
        !hyphened(socket),
        state_dir.len() > 0,
        socket.len() > 0,
    ensures
        command_line(
            seq!["popup"@]
                + seq!["--supervisor-capability"@, bearer, "--state-dir"@, state_dir, "--socket"@, socket],
            env,
        ) == Ok::<CommandView, CliFault>(
            CommandView::Popup { supervisor_capability: bearer, state_dir, socket: Some(socket) },
        ),
{
    command_words_differ();
    host_rules_take_three();
    host_arguments_are_read(
        supervisor_rules(),
        "--supervisor-capability"@,
        "HERDR_SUPERVISOR_CAPABILITY"@,
        bearer,
        state_dir,
        socket,
        env,
    );
    let rest = seq!["--supervisor-capability"@, bearer, "--state-dir"@, state_dir, "--socket"@, socket];
    let line = seq!["popup"@] + rest;
    assert(line[0] == "popup"@);
    assert(line.drop_first() =~= rest);
}

/// The tool server is given the capability of a Session, a state directory and a socket.
#[verifier::rlimit(50)]
pub proof fn tool_servers_are_given_a_capability(
    bearer: Seq<char>,
    state_dir: Seq<char>,
    socket: Seq<char>,
    env: Seq<(String, String)>,
)
    requires
        !hyphened(bearer),
        !hyphened(state_dir),
        !hyphened(socket),
        state_dir.len() > 0,
        socket.len() > 0,
    ensures
        command_line(
            seq!["mcp"@]
                + seq!["--session-capability"@, bearer, "--state-dir"@, state_dir, "--socket"@, socket],
            env,
        ) == Ok::<CommandView, CliFault>(
            CommandView::Mcp { session_capability: bearer, state_dir, socket: Some(socket) },
        ),
{
    command_words_differ();
    host_rules_take_three();
    host_arguments_are_read(
        mcp_rules(),
        "--session-capability"@,
        "HERDR_HARNESS_CAPABILITY"@,
        bearer,
        state_dir,
        socket,
        env,
    );
    let rest = seq!["--session-capability"@, bearer, "--state-dir"@, state_dir, "--socket"@, socket];
    let line = seq!["mcp"@] + rest;
    assert(line[0] == "mcp"@);
    assert(line.drop_first() =~= rest);
}

#[verifier::rlimit(50)]
proof fn daemon_arguments_are_read(
    state_dir: Seq<char>,
    socket: Seq<char>,
    env: Seq<(String, String)>,
)
    requires
        !hyphened(state_dir),
        !hyphened(socket),
        state_dir.len() > 0,
        socket.len() > 0,
    ensures
        daemon_options(seq!["--state-dir"@, state_dir, "--socket"@, socket], env) == Ok::<
            CommandView,
            CliFault,
        >(CommandView::Daemon { state_dir, socket: Some(socket) }),
        daemon_options(seq!["--state-dir"@, state_dir], env) == Ok::<CommandView, CliFault>(
            CommandView::Daemon { state_dir, socket: None },
        ),
{
    option_names_are_names();
    reveal_strlit("");
    let none = Seq::<Seq<char>>::empty();
    let (d, k) = ("--state-dir"@, "--socket"@);
    let rules = daemon_rules();
    nothing_is_read_of_nothing(rules);
    assert(rules[0].name@ == d && rules[1].name@ == k);
    first_found(rules, is_rule(d), 0);
    first_found(rules, is_rule(k), 1);
    values_stand_behind_or_beside(k, socket, none, rules, false);
    let last = seq![k, socket];
    assert(last + none =~= last);
    let one = scan(last, rules, false)->Ok_0;
    assert(one.options =~= seq![(k, socket)]);
    assert(!given(one.options, d));
    values_stand_behind_or_beside(d, state_dir, last, rules, false);
    let both = seq![d, state_dir] + last;
    assert(both =~= seq![d, state_dir, k, socket]);
    let two = scan(both, rules, false)->Ok_0;
    assert(two.options =~= seq![(d, state_dir), (k, socket)]);
    options_count_before_variables(two, env, d, "HERDR_PLUGIN_STATE_DIR"@, 0);
    options_count_before_variables(two, env, k, ""@, 1);
    values_stand_behind_or_beside(d, state_dir, none, rules, false);
    let short = seq![d, state_dir];
    assert(short + none =~= short);
    let three = scan(short, rules, false)->Ok_0;
    assert(three.options =~= seq![(d, state_dir)]);
    assert(!given(three.options, k));
    options_count_before_variables(three, env, d, "HERDR_PLUGIN_STATE_DIR"@, 0);
    options_count_before_variables(three, env, k, ""@, 0);
}

#[verifier::rlimit(50)]
proof fn broker_arguments_are_read(socket: Seq<char>, env: Seq<(String, String)>)
    requires
        !hyphened(socket),
        socket.len() > 0,
    ensures
        broker_socket(seq!["--socket"@, socket], env) == Ok::<Seq<char>, CliFault>(socket),
{
    option_names_are_names();
    let none = Seq::<Seq<char>>::empty();
    let k = "--socket"@;
    let rules = broker_rules();
    nothing_is_read_of_nothing(rules);
    assert(rules[0].name@ == k);
    first_found(rules, is_rule(k), 0);
    values_stand_behind_or_beside(k, socket, none, rules, false);
    let last = seq![k, socket];
    assert(last + none =~= last);
    let one = scan(last, rules, false)->Ok_0;
    assert(one.options =~= seq![(k, socket)]);
    options_count_before_variables(one, env, k, "HERDR_COORDINATOR_SOCKET"@, 0);
}

/// The daemon is given a state directory, and a socket where it is to listen elsewhere.
#[verifier::rlimit(50)]
pub proof fn daemons_are_given_a_state_directory(
    state_dir: Seq<char>,
    socket: Seq<char>,
    env: Seq<(String, String)>,
)
    requires
        !hyphened(state_dir),
        !hyphened(socket),
        state_dir.len() > 0,
        socket.len() > 0,
    ensures
        command_line(
            seq!["daemon"@] + seq!["--state-dir"@, state_dir, "--socket"@, socket],
            env,
        ) == Ok::<CommandView, CliFault>(CommandView::Daemon { state_dir, socket: Some(socket) }),
        command_line(seq!["daemon"@] + seq!["--state-dir"@, state_dir], env) == Ok::<
            CommandView,
            CliFault,
        >(CommandView::Daemon { state_dir, socket: None }),
{
    command_words_differ();
    daemon_arguments_are_read(state_dir, socket, env);
    let long = seq!["--state-dir"@, state_dir, "--socket"@, socket];
    let short = seq!["--state-dir"@, state_dir];
    let (a, b) = (seq!["daemon"@] + long, seq!["daemon"@] + short);
    assert(a[0] == "daemon"@ && b[0] == "daemon"@);
    assert(a.drop_first() =~= long);
    assert(b.drop_first() =~= short);
}

/// The commands that only reach the broker are given its socket.
#[verifier::rlimit(50)]
pub proof fn callers_are_given_the_socket(socket: Seq<char>, env: Seq<(String, String)>)
    requires
        !hyphened(socket),
        socket.len() > 0,
    ensures
        command_line(seq!["call"@] + seq!["--socket"@, socket], env) == Ok::<CommandView, CliFault>(
            CommandView::Call { socket },
        ),
        command_line(seq!["stdio-proxy"@] + seq!["--socket"@, socket], env) == Ok::<
            CommandView,
            CliFault,
        >(CommandView::StdioProxy { socket }),
{
    command_words_differ();
    broker_arguments_are_read(socket, env);
    let rest = seq!["--socket"@, socket];
    let (a, b) = (seq!["call"@] + rest, seq!["stdio-proxy"@] + rest);
    assert(a[0] == "call"@ && b[0] == "stdio-proxy"@);
    assert(a.drop_first() =~= rest);
    assert(b.drop_first() =~= rest);
}

/// Every mapping of Workers that is given is passed on, in its order.
pub proof fn values_are_kept_in_order(
    a: Seq<(Seq<char>, Seq<char>)>,
    b: Seq<(Seq<char>, Seq<char>)>,
    name: Seq<char>,
    value: Seq<char>,
)
    ensures
        values_in(a + b, name) == values_in(a, name) + values_in(b, name),
        values_in(seq![(name, value)], name) == seq![value],
        forall|other: Seq<char>|
            other != name ==> (#[trigger] values_in(seq![(other, value)], name)).len() == 0,
    decreases b.len(),
{
    let nothing = Seq::<(Seq<char>, Seq<char>)>::empty();
    assert(values_in(nothing, name) =~= Seq::<Seq<char>>::empty());
    assert(seq![(name, value)].drop_last() =~= nothing);
    assert(values_in(seq![(name, value)], name) =~= seq![value]);
    assert forall|other: Seq<char>| other != name implies (#[trigger] values_in(
        seq![(other, value)],
        name,
    )).len() == 0 by {
        assert(seq![(other, value)].drop_last() =~= nothing);
    }
    if b.len() == 0 {
        assert(a + b =~= a);
        assert(b =~= nothing);
        assert(values_in(a, name) + values_in(b, name) =~= values_in(a, name));
    } else {
        values_are_kept_in_order(a, b.drop_last(), name, value);
        assert((a + b).drop_last() =~= a + b.drop_last());
        assert((a + b).last() == b.last());
        assert(values_in(a + b, name) =~= values_in(a, name) + values_in(b, name));
    }
}

} // verus!
