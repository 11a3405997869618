//! What the installed service is launched with.

use vstd::prelude::*;
use vstd::string::StringExecFns;
use crate::routes::RouteSpec;
use crate::search::views;

verus! {

/// The arguments that name the routes: `-r` before each.
pub open spec fn route_arguments(routes: Seq<Seq<char>>) -> Seq<Seq<char>> {
    Seq::new(
        2 * routes.len(),
        |i: int|
            if i % 2 == 0 {
                "-r"@
            } else {
                routes[i / 2]
            },
    )
}

/// The arguments that name the interface, where one is given.
pub open spec fn interface_arguments(wsl_interface: Option<Seq<char>>) -> Seq<Seq<char>> {
    match wsl_interface {
        Some(name) => seq!["--wsl-interface"@, name],
        None => Seq::empty(),
    }
}

/// The command line of the service: the `run` command, the interface if
/// one is given, the routes in order, and the log level last.
pub open spec fn cmdline_model(
    wsl_interface: Option<Seq<char>>,
    routes: Seq<Seq<char>>,
    log_level: Seq<char>,
) -> Seq<Seq<char>> {
    seq!["run"@] + interface_arguments(wsl_interface) + route_arguments(routes) + seq![
        "--log-level"@,
        log_level,
    ]
}

/// Builds the arguments that the service is launched with.
pub fn build_cmdline_args(wsl_interface: &Option<String>, routes: &Vec<String>, log_level: &str)
    -> (args: Vec<String>)
    ensures
        views(args@) == cmdline_model(
            match wsl_interface {
                Some(name) => Some(name@),
                None => None,
            },
            views(routes@),
            log_level@,
        ),
{
    let ghost interface_view = match wsl_interface {
        Some(name) => Some(name@),
        None => None,
    };
    let mut args: Vec<String> = Vec::new();
    args.push(String::from_str("run"));
    match wsl_interface {
        Some(name) => {
            args.push(String::from_str("--wsl-interface"));
            args.push(name.clone());
        },
        None => {},
    }
    let ghost head = seq!["run"@] + interface_arguments(interface_view);
    let mut i: usize = 0;
    while i < routes.len()
        invariant
            i <= routes.len(),
            args@.len() == head.len() + 2 * i,
            forall|k: int| 0 <= k < head.len() ==> (#[trigger] args@[k])@ == head[k],
            forall|k: int|
                0 <= k < 2 * i ==> (#[trigger] args@[head.len() + k])@ == route_arguments(
                    views(routes@),
                )[k],
        decreases routes.len() - i,
    {
        args.push(String::from_str("-r"));
        args.push(routes[i].clone());
        i += 1;
    }
    let ghost body = args@;
    args.push(String::from_str("--log-level"));
    args.push(String::from_str(log_level));
    proof {
        let tail = route_arguments(views(routes@));
        let model = cmdline_model(interface_view, views(routes@), log_level@);
        assert forall|k: int| head.len() <= k < head.len() + tail.len() implies views(
            args@,
        )[k] == model[k] by {
            assert(args@[k] == body[head.len() + (k - head.len())]);
        }
    }
    args
}

/// The name that stands in front of the arguments when they are parsed
/// again.
pub const PROGRAM_NAME: &'static str = "route2wsl";

/// The arguments that the `windows_args` crate splits the command line
/// `command` into, the executable first.
pub uninterp spec fn command_line_arguments(command: Seq<char>) -> Seq<Seq<char>>;

/// Splits a command line with `windows_args::Args::parse_cmd`, which
/// follows the rules by which Windows hands a process its arguments.
///
/// Believed, not proved: the parts are what [`command_line_arguments`]
/// names, and there is at least one, the executable, which is empty where
/// the command line is.
#[verifier::external_body]
fn split_command_line(command: &str) -> (parts: Vec<String>)
    ensures
        views(parts@) == command_line_arguments(command@),
        parts@.len() >= 1,
{
    windows_args::Args::parse_cmd(command).collect()
}

/// The executable and the arguments to parse, from the parts of a command
/// line: the first part is the executable, and the program's name takes
/// its place in front of the others. Without parts there is neither.
pub open spec fn installed_command_model(parts: Seq<Seq<char>>) -> Option<
    (Seq<char>, Seq<Seq<char>>),
> {
    if parts.len() == 0 {
        None
    } else {
        Some((parts[0], seq![PROGRAM_NAME@] + parts.subrange(1, parts.len() as int)))
    }
}

/// Tells the executable of an installation from its arguments, given the
/// parts that its command line was split into. The arguments come with the
/// program's name in front, ready to be parsed as a command line of this
/// program.
pub fn command_parts(parts: Vec<String>) -> (r: Option<(String, Vec<String>)>)
    ensures
        match installed_command_model(views(parts@)) {
            Some((executable, arguments)) => r is Some && r->Some_0.0@ == executable && views(
                r->Some_0.1@,
            ) == arguments,
            None => r is None,
        },
{
    let ghost all = views(parts@);
    let mut executable: Option<String> = None;
    let mut arguments: Vec<String> = Vec::new();
    arguments.push(String::from_str(PROGRAM_NAME));
    for part in it: parts
        invariant
            it.seq() == parts@,
            all == views(parts@),
            it.index() == 0 ==> executable is None,
            it.index() > 0 ==> executable is Some && executable->Some_0@ == all[0],
            arguments@.len() == if it.index() == 0 {
                1
            } else {
                it.index()
            },
            arguments@[0]@ == PROGRAM_NAME@,
            forall|k: int| 1 <= k < it.index() ==> (#[trigger] arguments@[k])@ == all[k],
    {
        if executable.is_none() {
            executable = Some(part);
        } else {
            arguments.push(part);
        }
    }
    match executable {
        Some(executable) => Some((executable, arguments)),
        None => None,
    }
}

/// Reads the command line that an installation was registered with: its
/// executable, and its arguments with the program's name in front.
pub fn installed_command(command: &str) -> (r: Option<(String, Vec<String>)>)
    ensures
        match installed_command_model(command_line_arguments(command@)) {
            Some((executable, arguments)) => r is Some && r->Some_0.0@ == executable && views(
                r->Some_0.1@,
            ) == arguments,
            None => r is None,
        },
{
    command_parts(split_command_line(command))
}

/// The routes of an installation after `new_routes` were added to
/// `routes`: each new route that is not there yet is put at the end, in
/// the order given.
pub open spec fn merged_routes(routes: Seq<RouteSpec>, new_routes: Seq<RouteSpec>) -> Seq<
    RouteSpec,
>
    decreases new_routes.len(),
{
    if new_routes.len() == 0 {
        routes
    } else {
        let merged = merged_routes(routes, new_routes.drop_last());
        if merged.contains(new_routes.last()) {
            merged
        } else {
            merged.push(new_routes.last())
        }
    }
}

/// Adding routes keeps every route that was there, in its place, brings in
/// every new route, and brings in nothing else.
pub proof fn lemma_merged_routes(routes: Seq<RouteSpec>, new_routes: Seq<RouteSpec>)
    ensures
        routes.is_prefix_of(merged_routes(routes, new_routes)),
        forall|i: int|
            0 <= i < new_routes.len() ==> merged_routes(routes, new_routes).contains(
                #[trigger] new_routes[i],
            ),
        forall|route: RouteSpec| #[trigger]
            merged_routes(routes, new_routes).contains(route) ==> routes.contains(route)
                || new_routes.contains(route),
        routes.no_duplicates() ==> merged_routes(routes, new_routes).no_duplicates(),
    decreases new_routes.len(),
{
    if new_routes.len() > 0 {
        let earlier = new_routes.drop_last();
        let merged = merged_routes(routes, earlier);
        let after = merged_routes(routes, new_routes);
        lemma_merged_routes(routes, earlier);
        assert forall|i: int| 0 <= i < new_routes.len() implies after.contains(
            #[trigger] new_routes[i],
        ) by {
            if i < earlier.len() {
                let at = choose|at: int| 0 <= at < merged.len() && merged[at] == earlier[i];
                assert(after[at] == new_routes[i]);
            } else if !merged.contains(new_routes.last()) {
                assert(after[merged.len() as int] == new_routes[i]);
            }
        }
        assert forall|route: RouteSpec| #[trigger] after.contains(route) implies routes.contains(
            route,
        ) || new_routes.contains(route) by {
            let at = choose|at: int| 0 <= at < after.len() && after[at] == route;
            if at < merged.len() {
                assert(merged.contains(route));
                if earlier.contains(route) {
                    let from = choose|from: int| 0 <= from < earlier.len() && earlier[from]
                        == route;
                    assert(new_routes[from] == route);
                }
            } else {
                assert(new_routes.last() == route);
            }
        }
    }
}

/// Adds `new_routes` to the routes of an installation. A route that the
/// installation has already is not added again.
pub fn add_route(routes: Vec<RouteSpec>, new_routes: &Vec<RouteSpec>) -> (updated: Vec<RouteSpec>)
    ensures
        updated@ == merged_routes(routes@, new_routes@),
{
    let ghost before = routes@;
    let mut updated = routes;
    let mut i: usize = 0;
    while i < new_routes.len()
        invariant
            i <= new_routes.len(),
            updated@ == merged_routes(before, new_routes@.take(i as int)),
        decreases new_routes.len() - i,
    {
        proof {
            assert(new_routes@.take(i + 1).drop_last() =~= new_routes@.take(i as int));
        }
        if !has_route(&updated, new_routes[i]) {
            updated.push(new_routes[i]);
        }
        i += 1;
    }
    proof {
        assert(new_routes@.take(i as int) =~= new_routes@);
    }
    updated
}

/// Whether `route` is among `routes`.
fn has_route(routes: &Vec<RouteSpec>, route: RouteSpec) -> (r: bool)
    ensures
        r == routes@.contains(route),
{
    let mut i: usize = 0;
    while i < routes.len()
        invariant
            i <= routes.len(),
            forall|j: int| 0 <= j < i ==> routes@[j] != route,
        decreases routes.len() - i,
    {
        if routes[i] == route {
            return true;
        }
        i += 1;
    }
    false
}

} // verus!
