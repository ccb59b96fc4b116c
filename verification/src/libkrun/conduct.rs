//! What can be relied on of a machine on the host: which runs are taken, what its helper is told,
//! how it is started and controlled, and what its end is taken for.

use vstd::prelude::*;

use crate::backend::{BackendErrorView, OutputChannel, RootMode, Signal};
use crate::libkrun::network::{
    cleanup_error, cleanup_suffix, diagnostics_text, network_argument_of, proxy_arguments,
    proxy_verdict, socket_uri, start_failure_text, NetworkStart, ProxyVerdict, RelayEnd,
    StartEvent, StartFailure, StartPhase,
};
use crate::libkrun::publish::{
    endpoint_text, phase_of, request_head, response_error, response_status, text_error,
    PublishEvent, PublishPhase, PublishRequest, PublisherView,
};
use crate::libkrun::root::{
    root_mode_of, EphemeralEvent, EphemeralPhase, EphemeralRoot, PersistentEvent,
    PersistentPhase,
};
use crate::libkrun::spawn::{
    micros_between, route_for, HelperRoute, SpawnActionView, SpawnEvent, SpawnPhase, SpawnView,
};
use crate::libkrun::terminal::{resize_way, NativeControl, PtyInput, ResizeRoute, ShutdownStep};
use crate::libkrun::{
    clean_exit, config_complaint, copy_arguments, environment_arguments, helper_arguments_spec,
    limit_arguments, marks_clean, network_arguments, option_argument, resize_bytes,
    root_arguments, route_of, run_complaint, settled_exit, signal_opcode, spawn_error_of,
    terminal_arguments, workspace_arguments, CopySpec, LibkrunConfigView, MachineRun,
    NetworkArgument, PathFacts, SignalRoute,
};
use crate::session::finish::ExitParts;

verus! {

/// A configuration is accepted exactly where the machine has a processor and memory, and what it
/// is made of was found: the helper, a sound native library, the root of its kind, the tool that
/// reads a root disk, and the workspace disk if one is named.
pub proof fn law_complete_configurations_are_accepted(
    config: LibkrunConfigView,
    managed_root: bool,
    facts: PathFacts,
)
    ensures
        config_complaint(config, managed_root, facts) is None <==> {
            &&& config.vcpus > 0 && config.memory_mib > 0
            &&& facts.helper_exists && facts.library_exists && facts.native_error is None
            &&& managed_root || (if config.root_disk is Some {
                facts.root_disk_is_file
            } else {
                facts.root_is_directory
            })
            &&& facts.debugfs_is_file || !managed_root && config.root_disk is None
            &&& facts.workspace_is_file || config.workspace_disk is None
        },
{
}

/// What is missing is named, with its path.
pub proof fn law_missing_parts_are_named(
    config: LibkrunConfigView,
    managed_root: bool,
    facts: PathFacts,
)
    requires
        config_complaint(config, managed_root, facts) is Some,
        config.vcpus > 0,
        config.memory_mib > 0,
    ensures
        config_complaint(config, managed_root, facts)->0 matches BackendErrorView::Control(text) && {
            ||| !facts.helper_exists && text == "VMM helper does not exist: "@ + config.helper_path
            ||| !facts.library_exists && text == "libkrun does not exist: "@ + config.library_path
            ||| facts.native_error is Some && text == facts.native_error->0@
            ||| !facts.root_disk_is_file && config.root_disk is Some && text
                == "root disk does not exist: "@ + config.root_disk->0
            ||| !facts.root_is_directory && text == "root filesystem does not exist: "@
                + config.root_path
            ||| !facts.debugfs_is_file && text == "debugfs does not exist: "@
                + config.debugfs_path
            ||| !facts.workspace_is_file && config.workspace_disk is Some && text
                == "workspace disk does not exist: "@ + config.workspace_disk->0
        },
{
}

/// A run is taken exactly where its root can do what it asks for: a box needs a store, copies and
/// a workspace need a root that is a disk, and an overlay needs a workspace to lie over.
pub proof fn law_runs_suit_their_root(config: LibkrunConfigView, managed_root: bool, run: MachineRun)
    ensures
        run_complaint(config, managed_root, run) is None <==> {
            &&& run.has_box ==> managed_root
            &&& run.copy_in@.len() > 0 || run.copy_out@.len() > 0 || config.workspace_disk is Some
                ==> managed_root || config.root_disk is Some
            &&& run.overlay ==> config.workspace_disk is Some
        },
        run_complaint(config, managed_root, run) matches Some(complaint) ==> complaint
            is Unsupported || complaint is Control,
        run_complaint(config, managed_root, run) matches Some(BackendErrorView::Control(_)) ==> run.has_box,
{
}

/// Whether words stand side by side somewhere in the first `upto` arguments.
#[verifier::opaque]
pub open spec fn told(arguments: Seq<Seq<char>>, upto: int, words: Seq<Seq<char>>) -> bool {
    exists|at: int|
        0 <= at && at + words.len() <= upto && upto <= arguments.len() && #[trigger] arguments.subrange(
            at,
            at + words.len(),
        ) == words
}

/// Whether a text stands at the beginning of the first `upto` arguments.
spec fn begins(arguments: Seq<Seq<char>>, upto: int, start: Seq<Seq<char>>) -> bool {
    start.len() <= upto <= arguments.len() && arguments.subrange(0, start.len() as int) == start
}

proof fn lemma_last(
    arguments: Seq<Seq<char>>,
    upto: int,
    start: Seq<Seq<char>>,
    words: Seq<Seq<char>>,
)
    requires
        begins(arguments, upto, start + words),
    ensures
        begins(arguments, upto, start),
        told(arguments, upto, words),
{
    reveal(told);
    let whole = start + words;
    let at = start.len() as int;
    assert(arguments.subrange(at, at + words.len()) =~= words) by {
        assert forall|i: int| 0 <= i < words.len() implies arguments[at + i] == words[i] by {
            assert(arguments.subrange(0, whole.len() as int)[at + i] == whole[at + i]);
        }
    }
    assert(arguments.subrange(0, at) =~= start) by {
        assert forall|i: int| 0 <= i < at implies arguments[i] == start[i] by {
            assert(arguments.subrange(0, whole.len() as int)[i] == whole[i]);
        }
    }
}

proof fn lemma_part(
    arguments: Seq<Seq<char>>,
    upto: int,
    words: Seq<Seq<char>>,
    from: int,
    part: Seq<Seq<char>>,
)
    requires
        told(arguments, upto, words),
        0 <= from,
        from + part.len() <= words.len(),
        words.subrange(from, from + part.len()) == part,
    ensures
        told(arguments, upto, part),
{
    reveal(told);
    let at = choose|at: int|
        0 <= at && at + words.len() <= upto && upto <= arguments.len() && #[trigger] arguments.subrange(
            at,
            at + words.len(),
        ) == words;
    assert(arguments.subrange(at + from, at + from + part.len()) =~= part) by {
        assert forall|i: int| 0 <= i < part.len() implies arguments[at + from + i] == part[i] by {
            assert(arguments.subrange(at, at + words.len())[from + i] == words[from + i]);
            assert(words.subrange(from, from + part.len())[i] == part[i]);
        }
    }
    assert(at + (from + part.len()) == at + from + part.len());
}

/// The groups of arguments, each of which the helper is told before the command.
proof fn lemma_groups(
    config: LibkrunConfigView,
    run: MachineRun,
    disk: Option<Seq<char>>,
    network: NetworkArgument,
    parent_pid: u32,
    control_fifo: Option<Seq<char>>,
)
    ensures
        ({
            let arguments = helper_arguments_spec(
                config,
                run,
                disk,
                network,
                parent_pid,
                control_fifo,
            );
            let upto = arguments.len() - run.argv@.len() - 1;
            &&& told(arguments, upto, seq!["--libkrun"@, config.library_path])
            &&& told(arguments, upto, root_arguments(config, run, disk))
            &&& told(
                arguments,
                upto,
                seq![
                    "--cpus"@,
                    crate::text::decimal_text(config.vcpus as nat),
                    "--memory-mib"@,
                    crate::text::decimal_text(config.memory_mib as nat),
                    "--parent-pid"@,
                    crate::text::decimal_text(parent_pid as nat),
                ],
            )
            &&& told(arguments, upto, option_argument("--cwd"@, crate::text::text_of(run.cwd)))
            &&& told(arguments, upto, terminal_arguments(run))
            &&& told(arguments, upto, workspace_arguments(config, run))
            &&& told(arguments, upto, network_arguments(network))
            &&& told(
                arguments,
                upto,
                copy_arguments(
                    run.copy_in@,
                    run.copy_in@.len(),
                    "--copy-in-source"@,
                    "--copy-in-destination"@,
                ),
            )
            &&& told(
                arguments,
                upto,
                copy_arguments(
                    run.copy_out@,
                    run.copy_out@.len(),
                    "--copy-out-source"@,
                    "--copy-out-destination"@,
                ),
            )
            &&& told(arguments, upto, limit_arguments(run))
            &&& told(
                arguments,
                upto,
                environment_arguments(run.environment@, run.environment@.len()),
            )
            &&& told(arguments, upto, option_argument("--control-fifo"@, control_fifo))
        }),
{
    let arguments = helper_arguments_spec(config, run, disk, network, parent_pid, control_fifo);
    let command = crate::text::strings(run.argv@);
    assert(command.len() == run.argv@.len());
    let s1 = seq!["--libkrun"@, config.library_path];
    let root = root_arguments(config, run, disk);
    let s2 = s1 + root;
    let sizes = seq![
        "--cpus"@,
        crate::text::decimal_text(config.vcpus as nat),
        "--memory-mib"@,
        crate::text::decimal_text(config.memory_mib as nat),
        "--parent-pid"@,
        crate::text::decimal_text(parent_pid as nat),
    ];
    let s3 = s2 + sizes;
    let cwd = option_argument("--cwd"@, crate::text::text_of(run.cwd));
    let s4 = s3 + cwd;
    let terminal = terminal_arguments(run);
    let s5 = s4 + terminal;
    let workspace = workspace_arguments(config, run);
    let s6 = s5 + workspace;
    let net = network_arguments(network);
    let s7 = s6 + net;
    let copy_in = copy_arguments(
        run.copy_in@,
        run.copy_in@.len(),
        "--copy-in-source"@,
        "--copy-in-destination"@,
    );
    let s8 = s7 + copy_in;
    let copy_out = copy_arguments(
        run.copy_out@,
        run.copy_out@.len(),
        "--copy-out-source"@,
        "--copy-out-destination"@,
    );
    let s9 = s8 + copy_out;
    let limit = limit_arguments(run);
    let s10 = s9 + limit;
    let environment = environment_arguments(run.environment@, run.environment@.len());
    let s11 = s10 + environment;
    let fifo = option_argument("--control-fifo"@, control_fifo);
    let s12 = s11 + fifo;
    let upto = arguments.len() - run.argv@.len() - 1;
    assert(arguments == s12 + seq!["--"@] + command);
    lemma_start(arguments, s12, command);
    lemma_last(arguments, upto, s11, fifo);
    lemma_last(arguments, upto, s10, environment);
    lemma_last(arguments, upto, s9, limit);
    lemma_last(arguments, upto, s8, copy_out);
    lemma_last(arguments, upto, s7, copy_in);
    lemma_last(arguments, upto, s6, net);
    lemma_last(arguments, upto, s5, workspace);
    lemma_last(arguments, upto, s4, terminal);
    lemma_last(arguments, upto, s3, cwd);
    lemma_last(arguments, upto, s2, sizes);
    lemma_last(arguments, upto, s1, root);
    assert(Seq::<Seq<char>>::empty() + s1 =~= s1);
    lemma_last(arguments, upto, Seq::empty(), s1);
}

proof fn lemma_start(arguments: Seq<Seq<char>>, start: Seq<Seq<char>>, command: Seq<Seq<char>>)
    requires
        arguments == start + seq!["--"@] + command,
    ensures
        begins(arguments, arguments.len() - command.len() - 1, start),
{
    assert(arguments.subrange(0, start.len() as int) =~= start);
}

/// The helper is told, before the command, of the native library, the size of the machine and
/// whose child it is, and, each where there is one, of the working directory, the root disk or
/// else the root directory, the terminal's size, the workspace, the network and the control pipe.
pub proof fn law_helper_is_told_of_the_machine(
    config: LibkrunConfigView,
    run: MachineRun,
    disk: Option<Seq<char>>,
    network: NetworkArgument,
    parent_pid: u32,
    control_fifo: Option<Seq<char>>,
)
    ensures
        ({
            let arguments = helper_arguments_spec(
                config,
                run,
                disk,
                network,
                parent_pid,
                control_fifo,
            );
            let upto = arguments.len() - run.argv@.len() - 1;
            &&& told(arguments, upto, seq!["--libkrun"@, config.library_path])
            &&& told(
                arguments,
                upto,
                seq!["--cpus"@, crate::text::decimal_text(config.vcpus as nat)],
            )
            &&& told(
                arguments,
                upto,
                seq!["--memory-mib"@, crate::text::decimal_text(config.memory_mib as nat)],
            )
            &&& told(
                arguments,
                upto,
                seq!["--parent-pid"@, crate::text::decimal_text(parent_pid as nat)],
            )
            &&& disk matches Some(path) ==> {
                &&& told(arguments, upto, seq!["--root-disk"@, path])
                &&& told(arguments, upto, seq!["--debugfs"@, config.debugfs_path])
                &&& told(arguments, upto, seq!["--session-id"@, run.session_id@])
            }
            &&& disk is None ==> told(arguments, upto, seq!["--root"@, config.root_path])
            &&& run.cwd matches Some(cwd) ==> told(arguments, upto, seq!["--cwd"@, cwd@])
            &&& control_fifo matches Some(path) ==> told(
                arguments,
                upto,
                seq!["--control-fifo"@, path],
            )
        }),
{
    let arguments = helper_arguments_spec(config, run, disk, network, parent_pid, control_fifo);
    let upto = arguments.len() - run.argv@.len() - 1;
    lemma_groups(config, run, disk, network, parent_pid, control_fifo);
    let cpus = seq!["--cpus"@, crate::text::decimal_text(config.vcpus as nat)];
    let memory = seq!["--memory-mib"@, crate::text::decimal_text(config.memory_mib as nat)];
    let parent = seq!["--parent-pid"@, crate::text::decimal_text(parent_pid as nat)];
    let sizes = seq![
        "--cpus"@,
        crate::text::decimal_text(config.vcpus as nat),
        "--memory-mib"@,
        crate::text::decimal_text(config.memory_mib as nat),
        "--parent-pid"@,
        crate::text::decimal_text(parent_pid as nat),
    ];
    assert(sizes.subrange(0, 2) =~= cpus);
    assert(sizes.subrange(2, 4) =~= memory);
    assert(sizes.subrange(4, 6) =~= parent);
    lemma_part(arguments, upto, sizes, 0, cpus);
    lemma_part(arguments, upto, sizes, 2, memory);
    lemma_part(arguments, upto, sizes, 4, parent);
    match disk {
        Some(path) => {
            let root = root_arguments(config, run, disk);
            let first = seq!["--root-disk"@, path];
            let second = seq!["--debugfs"@, config.debugfs_path];
            let third = seq!["--session-id"@, run.session_id@];
            assert(root.subrange(0, 2) =~= first);
            assert(root.subrange(2, 4) =~= second);
            assert(root.subrange(4, 6) =~= third);
            lemma_part(arguments, upto, root, 0, first);
            lemma_part(arguments, upto, root, 2, second);
            lemma_part(arguments, upto, root, 4, third);
        },
        None => {},
    }
}

/// The helper is told of what the run adds to the machine: the size of a terminal, the workspace
/// and whether it can be written, the network, every copy with its source and destination, the
/// limit of the copies, and every variable of the environment with its value.
pub proof fn law_helper_is_told_of_the_run(
    config: LibkrunConfigView,
    run: MachineRun,
    disk: Option<Seq<char>>,
    network: NetworkArgument,
    parent_pid: u32,
    control_fifo: Option<Seq<char>>,
    index: int,
)
    ensures
        ({
            let arguments = helper_arguments_spec(
                config,
                run,
                disk,
                network,
                parent_pid,
                control_fifo,
            );
            let upto = arguments.len() - run.argv@.len() - 1;
            &&& run.tty ==> {
                &&& told(
                    arguments,
                    upto,
                    seq![
                        "--tty"@,
                        "--tty-rows"@,
                        crate::text::decimal_text(run.tty_rows as nat),
                        "--tty-cols"@,
                        crate::text::decimal_text(run.tty_columns as nat),
                    ],
                )
            }
            &&& config.workspace_disk matches Some(path) ==> {
                &&& told(arguments, upto, seq!["--workspace-disk"@, path])
                &&& run.overlay ==> told(arguments, upto, seq!["--workspace-writable"@])
            }
            &&& network matches NetworkArgument::Descriptor(number) ==> told(
                arguments,
                upto,
                seq!["--network-fd"@, crate::text::decimal_text(number as nat)],
            )
            &&& network matches NetworkArgument::Socket(path) ==> told(
                arguments,
                upto,
                seq!["--network-socket"@, path@],
            )
            &&& 0 <= index < run.copy_in@.len() ==> told(
                arguments,
                upto,
                seq![
                    "--copy-in-source"@,
                    run.copy_in@[index].source@,
                    "--copy-in-destination"@,
                    run.copy_in@[index].destination@,
                ],
            )
            &&& 0 <= index < run.copy_out@.len() ==> told(
                arguments,
                upto,
                seq![
                    "--copy-out-source"@,
                    run.copy_out@[index].source@,
                    "--copy-out-destination"@,
                    run.copy_out@[index].destination@,
                ],
            )
            &&& run.copy_in@.len() > 0 || run.copy_out@.len() > 0 ==> told(
                arguments,
                upto,
                seq![
                    "--copy-limit-bytes"@,
                    crate::text::decimal_text(run.copy_limit_bytes as nat),
                ],
            )
            &&& 0 <= index < run.environment@.len() ==> told(
                arguments,
                upto,
                seq![
                    "--env"@,
                    run.environment@[index].0@ + "="@ + run.environment@[index].1@,
                ],
            )
        }),
{
    let arguments = helper_arguments_spec(config, run, disk, network, parent_pid, control_fifo);
    let upto = arguments.len() - run.argv@.len() - 1;
    lemma_groups(config, run, disk, network, parent_pid, control_fifo);
    match config.workspace_disk {
        Some(path) => {
            let words = workspace_arguments(config, run);
            assert(words.subrange(0, 2) =~= seq!["--workspace-disk"@, path]);
            lemma_part(arguments, upto, words, 0, seq!["--workspace-disk"@, path]);
            if run.overlay {
                assert(words.subrange(2, 3) =~= seq!["--workspace-writable"@]);
                lemma_part(arguments, upto, words, 2, seq!["--workspace-writable"@]);
            }
        },
        None => {},
    }
    if 0 <= index < run.copy_in@.len() {
        lemma_copy(
            arguments,
            upto,
            run.copy_in@,
            run.copy_in@.len(),
            "--copy-in-source"@,
            "--copy-in-destination"@,
            index,
        );
    }
    if 0 <= index < run.copy_out@.len() {
        lemma_copy(
            arguments,
            upto,
            run.copy_out@,
            run.copy_out@.len(),
            "--copy-out-source"@,
            "--copy-out-destination"@,
            index,
        );
    }
    if 0 <= index < run.environment@.len() {
        lemma_variable(arguments, upto, run.environment@, run.environment@.len(), index);
    }
}

proof fn lemma_copy(
    arguments: Seq<Seq<char>>,
    upto: int,
    copies: Seq<CopySpec>,
    count: nat,
    source_flag: Seq<char>,
    destination_flag: Seq<char>,
    index: int,
)
    requires
        0 <= index < count <= copies.len(),
        told(arguments, upto, copy_arguments(copies, count, source_flag, destination_flag)),
    ensures
        told(
            arguments,
            upto,
            seq![
                source_flag,
                copies[index].source@,
                destination_flag,
                copies[index].destination@,
            ],
        ),
    decreases count,
{
    let words = copy_arguments(copies, count, source_flag, destination_flag);
    let earlier = copy_arguments(copies, (count - 1) as nat, source_flag, destination_flag);
    let last = seq![
        source_flag,
        copies[count - 1].source@,
        destination_flag,
        copies[count - 1].destination@,
    ];
    assert(words == earlier + last);
    if index == count - 1 {
        assert(words.subrange(earlier.len() as int, (earlier.len() + last.len()) as int) =~= last);
        lemma_part(arguments, upto, words, earlier.len() as int, last);
    } else {
        assert(words.subrange(0, 0int + earlier.len()) =~= earlier);
        lemma_part(arguments, upto, words, 0, earlier);
        lemma_copy(
            arguments,
            upto,
            copies,
            (count - 1) as nat,
            source_flag,
            destination_flag,
            index,
        );
    }
}

proof fn lemma_variable(
    arguments: Seq<Seq<char>>,
    upto: int,
    environment: Seq<(String, String)>,
    count: nat,
    index: int,
)
    requires
        0 <= index < count <= environment.len(),
        told(arguments, upto, environment_arguments(environment, count)),
    ensures
        told(
            arguments,
            upto,
            seq!["--env"@, environment[index].0@ + "="@ + environment[index].1@],
        ),
    decreases count,
{
    let words = environment_arguments(environment, count);
    let earlier = environment_arguments(environment, (count - 1) as nat);
    let last = seq!["--env"@, environment[count - 1].0@ + "="@ + environment[count - 1].1@];
    assert(words == earlier + last);
    if index == count - 1 {
        assert(words.subrange(earlier.len() as int, (earlier.len() + last.len()) as int) =~= last);
        lemma_part(arguments, upto, words, earlier.len() as int, last);
    } else {
        assert(words.subrange(0, 0int + earlier.len()) =~= earlier);
        lemma_part(arguments, upto, words, 0, earlier);
        lemma_variable(arguments, upto, environment, (count - 1) as nat, index);
    }
}

/// The helper is told nothing else: its arguments are as many as what the machine and the run
/// come to.
pub proof fn law_helper_is_told_nothing_else(
    config: LibkrunConfigView,
    run: MachineRun,
    disk: Option<Seq<char>>,
    network: NetworkArgument,
    parent_pid: u32,
    control_fifo: Option<Seq<char>>,
)
    ensures
        helper_arguments_spec(config, run, disk, network, parent_pid, control_fifo).len() == 9int + (
        if disk is Some {
            6int
        } else {
            2
        }) + (if run.cwd is Some {
            2int
        } else {
            0
        }) + (if run.tty {
            5int
        } else {
            0
        }) + (if config.workspace_disk is None {
            0int
        } else if run.overlay {
            3
        } else {
            2
        }) + (if network is Absent {
            0int
        } else {
            2
        }) + 4 * run.copy_in@.len() + 4 * run.copy_out@.len() + (if run.copy_in@.len() > 0
            || run.copy_out@.len() > 0 {
            2int
        } else {
            0
        }) + 2 * run.environment@.len() + (if control_fifo is Some {
            2int
        } else {
            0
        }) + run.argv@.len(),
{
    lemma_copy_count(
        run.copy_in@,
        run.copy_in@.len(),
        "--copy-in-source"@,
        "--copy-in-destination"@,
    );
    lemma_copy_count(
        run.copy_out@,
        run.copy_out@.len(),
        "--copy-out-source"@,
        "--copy-out-destination"@,
    );
    lemma_variable_count(run.environment@, run.environment@.len());
    assert(crate::text::strings(run.argv@).len() == run.argv@.len());
}

proof fn lemma_copy_count(
    copies: Seq<CopySpec>,
    count: nat,
    source_flag: Seq<char>,
    destination_flag: Seq<char>,
)
    ensures
        copy_arguments(copies, count, source_flag, destination_flag).len() == 4 * count,
    decreases count,
{
    if count > 0 {
        lemma_copy_count(copies, (count - 1) as nat, source_flag, destination_flag);
    }
}

proof fn lemma_variable_count(environment: Seq<(String, String)>, count: nat)
    ensures
        environment_arguments(environment, count).len() == 2 * count,
    decreases count,
{
    if count > 0 {
        lemma_variable_count(environment, (count - 1) as nat);
    }
}

/// A new terminal size is told byte by byte: the two numbers can be read off the frame, each with
/// its more significant byte first, and no signal's frame can be taken for it.
pub proof fn law_control_frames_can_be_read(rows: u16, cols: u16, signal: Signal, other: Signal)
    ensures
        resize_bytes(rows, cols).len() == 5,
        resize_bytes(rows, cols)[0] == 1,
        resize_bytes(rows, cols)[1] * 256 + resize_bytes(rows, cols)[2] == rows,
        resize_bytes(rows, cols)[3] * 256 + resize_bytes(rows, cols)[4] == cols,
        signal_opcode(Signal::Interrupt) == Some(2u8),
        signal_opcode(Signal::Terminate) == Some(3u8),
        signal_opcode(Signal::Hangup) == Some(4u8),
        signal_opcode(signal) is None <==> signal == Signal::Kill,
        signal_opcode(signal) is Some && signal_opcode(signal) == signal_opcode(other) ==> signal
            == other,
{
}

/// A kill never depends on the guest: it goes to the helper's process group.  Every other signal
/// goes through the control pipe where there is one, and else to the group too, under the host's
/// number of it.
pub proof fn law_signals_reach_the_machine(has_control_pipe: bool, signal: Signal, pid: u32)
    requires
        0 < pid <= i32::MAX,
    ensures
        has_control_pipe && signal != Signal::Kill <==> route_of(has_control_pipe, signal, pid)
            == SignalRoute::ControlPipe,
        route_of(has_control_pipe, signal, pid) matches SignalRoute::ProcessGroup {
            target,
            number,
        } ==> target < 0 && target == -pid && number == (match signal {
            Signal::Hangup => 1i32,
            Signal::Interrupt => 2i32,
            Signal::Kill => 9i32,
            Signal::Terminate => 15i32,
        }),
        route_of(has_control_pipe, signal, pid) != SignalRoute::Impossible,
{
}

/// A box is left clean exactly by a machine that was held for it and that ended by itself, with a
/// code that stands neither for a failed machine nor for a killed one.
pub proof fn law_ordinary_exits_leave_a_box_clean(exit: Result<ExitParts, String>, has_lease: bool)
    ensures
        marks_clean(exit, has_lease) <==> {
            &&& has_lease
            &&& exit is Ok
            &&& exit->Ok_0.signal is None && exit->Ok_0.code is Some
            &&& exit->Ok_0.code != Some(125i32) && exit->Ok_0.code != Some(137i32)
        },
        forall|code: i32| code != 125 && code != 137 ==> #[trigger] clean_exit(
            ExitParts { code: Some(code), signal: None },
        ),
{
}

/// An exit is reported exactly where everything could be cleaned up behind it, and then as it was;
/// what is reported in its place is one of the failures.
pub proof fn law_exits_are_reported_as_they_were(
    exit: Result<ExitParts, String>,
    root_cleanup: Result<(), String>,
    network_cleanup: Result<(), String>,
)
    ensures
        settled_exit(exit, root_cleanup, network_cleanup) is Ok <==> exit is Ok && root_cleanup
            is Ok && network_cleanup is Ok,
        settled_exit(exit, root_cleanup, network_cleanup) is Ok ==> settled_exit(
            exit,
            root_cleanup,
            network_cleanup,
        ) == exit,
        settled_exit(exit, root_cleanup, network_cleanup) matches Err(error) ==> {
            ||| root_cleanup == Err::<(), String>(error)
            ||| exit == Err::<ExitParts, String>(error)
            ||| network_cleanup == Err::<(), String>(error)
        },
{
}

/// A helper that could not be started is reported with its own error, and with what became of its
/// network only where that could not be taken down.
pub proof fn law_spawn_errors_are_kept(error: BackendErrorView, cleanup: Seq<char>)
    ensures
        spawn_error_of(error, None) == error,
        spawn_error_of(error, Some(cleanup)) matches BackendErrorView::Control(text) && {
            &&& error.text().is_prefix_of(text)
            &&& cleanup.is_suffix_of(text)
        },
{
}

/// A socket is addressed by its scheme and its path, and only where the path is absolute and, with
/// its terminator, short enough for the host.
pub proof fn law_socket_addresses_hold_their_path(path: Seq<char>, length: nat, scheme: Seq<char>)
    ensures
        socket_uri(path, length, scheme) is Ok <==> path.len() > 0 && path[0] == '/' && length + 1
            <= 104,
        socket_uri(path, length, scheme) matches Ok(uri) ==> {
            &&& scheme.is_prefix_of(uri)
            &&& path.is_suffix_of(uri)
            &&& uri.len() == scheme.len() + 3 + path.len()
            &&& uri.subrange(scheme.len() as int, scheme.len() + 3int) == seq![':', '/', '/']
        },
{
    reveal_strlit("://");
    if socket_uri(path, length, scheme) is Ok {
        let uri = socket_uri(path, length, scheme)->Ok_0;
        assert(uri.subrange(scheme.len() as int, scheme.len() + 3int) =~= seq![':', '/', '/']);
    }
}

/// The proxy listens for the machine at its datagram socket, and serves requests at the other
/// socket where one is named; one that cannot be addressed keeps it from being started.
pub proof fn law_proxy_is_told_its_sockets(
    upstream: Seq<char>,
    upstream_length: nat,
    services: Option<(Seq<char>, nat)>,
)
    ensures
        proxy_arguments(upstream, upstream_length, services) is Ok <==> {
            &&& socket_uri(upstream, upstream_length, "unixgram"@) is Ok
            &&& services matches Some((path, length)) ==> socket_uri(path, length, "unix"@) is Ok
        },
        proxy_arguments(upstream, upstream_length, services) matches Ok(arguments) ==> {
            &&& arguments.len() == (if services is Some {
                4int
            } else {
                2
            })
            &&& arguments[0] == "--listen-vfkit"@
            &&& upstream.is_suffix_of(arguments[1]) && "unixgram"@.is_prefix_of(arguments[1])
            &&& services matches Some((path, _)) ==> {
                &&& arguments[2] == "--services"@
                &&& path.is_suffix_of(arguments[3]) && "unix"@.is_prefix_of(arguments[3])
            }
        },
{
}

/// A proxy is waited for until it can be reached, but for no more than five seconds, and not at
/// all once it has exited.
pub proof fn law_proxies_are_waited_for(exited: bool, unreachable: bool, elapsed: int)
    ensures
        proxy_verdict(exited, unreachable, elapsed) == ProxyVerdict::Ready <==> !exited
            && !unreachable,
        proxy_verdict(exited, unreachable, elapsed) == ProxyVerdict::Exited <==> exited,
        proxy_verdict(exited, unreachable, elapsed) == ProxyVerdict::PollAgain <==> !exited
            && unreachable && elapsed < 5_000_000_000,
{
}

/// A network becomes ready step by step: with its proxy, then with the relay of its policy if it
/// has one, then with its published ports if it has any.  What fails on the way is never ready.
pub proof fn law_networks_become_ready(has_policy: bool, publishes: bool, start: NetworkStart)
    ensures
        ({
            let begun = NetworkStart { phase: StartPhase::Polling, has_policy, publishes };
            let reached = begun.after(StartEvent::Polled(ProxyVerdict::Ready));
            let relayed = if has_policy {
                reached.after(StartEvent::RelayStarted)
            } else {
                reached
            };
            let published = if publishes {
                relayed.after(StartEvent::Published)
            } else {
                relayed
            };
            &&& published.phase == StartPhase::Ready
            &&& reached.phase == StartPhase::StartingRelay <==> has_policy
            &&& relayed.phase == StartPhase::Publishing <==> publishes
        }),
        start.phase == StartPhase::Polling ==> {
            &&& start.after(StartEvent::Polled(ProxyVerdict::PollAgain)) == start
            &&& start.after(StartEvent::Polled(ProxyVerdict::Exited)).phase == StartPhase::Failed
            &&& start.after(StartEvent::Polled(ProxyVerdict::TooSlow)).phase == StartPhase::Failed
        },
        start.phase == StartPhase::StartingRelay ==> start.after(StartEvent::RelayFailed).phase
            == StartPhase::Failed,
        start.phase == StartPhase::Publishing ==> start.after(StartEvent::PublishFailed).phase
            == StartPhase::Failed,
{
}

/// Taking down a network succeeds exactly where nothing failed, and the endpoint of a machine that
/// is gone is no failure; what is reported else is one of the failures.
pub proof fn law_network_cleanup_reports_failures(
    relay: RelayEnd,
    child: Option<Seq<char>>,
    state: Option<Seq<char>>,
)
    ensures
        cleanup_error(relay, child, state) is None <==> !(relay is Failed) && child is None
            && state is None,
        cleanup_error(relay, child, state) matches Some(error) ==> {
            ||| relay matches RelayEnd::Failed(text) && text@ == error
            ||| child == Some(error)
            ||| state == Some(error)
        },
{
}

/// A machine with a relay is given the relay's socket, so that no frame goes past its policy; one
/// without is given the proxy's, and one without either has no network.
pub proof fn law_relay_stands_before_the_proxy(relay: Option<u32>, proxy: Option<String>)
    ensures
        relay matches Some(number) ==> network_argument_of(relay, proxy)
            == NetworkArgument::Descriptor(number),
        relay is None && proxy is Some ==> network_argument_of(relay, proxy)
            == NetworkArgument::Socket(proxy->0),
        network_argument_of(relay, proxy) is Absent <==> relay is None && proxy is None,
{
}

/// A request is made at the port that was asked for, or, where any will do, at one that was found
/// free; after it succeeds the next one is begun, and after the last one nothing is left to do.
pub proof fn law_requests_are_made_in_order(state: PublisherView, port: u16)
    requires
        state.wf(),
    ensures
        state.phase == PublishPhase::Allocating ==> {
            let after = state.after(PublishEvent::Allocated(port));
            &&& after.phase matches PublishPhase::Exposing(request)
            &&& request.host_port == port
            &&& request.guest_port == state.requests[state.published.len() as int].guest_port
            &&& request.host_address == state.requests[state.published.len() as int].host_address
            &&& after.published == state.published
        },
        state.phase matches PublishPhase::Exposing(request) ==> {
            let after = state.after(PublishEvent::Exposed);
            let next = state.published.len() + 1;
            &&& after.published == state.published.push(request)
            &&& after.attempt == 0
            &&& after.phase == PublishPhase::Done <==> next == state.requests.len()
            &&& next < state.requests.len() ==> (if state.requests[next as int].host_port == 0 {
                after.phase == PublishPhase::Allocating
            } else {
                after.phase == PublishPhase::Exposing(state.requests[next as int])
            })
        },
{
}

/// A request at a given port is tried once, and one at any port up to eight times, each time at a
/// port that is found anew; a port that cannot be found ends the publishing.
pub proof fn law_failed_requests_are_tried_again(state: PublisherView)
    requires
        state.wf(),
    ensures
        state.phase is Exposing ==> {
            let after = state.after(PublishEvent::ExposeFailed);
            let any = state.requests[state.published.len() as int].host_port == 0;
            &&& after.published == state.published
            &&& any && state.attempt < 7 ==> after.phase == PublishPhase::Allocating
                && after.attempt == state.attempt + 1
            &&& !any || state.attempt >= 7 ==> after.phase == PublishPhase::Failed
        },
        state.phase == PublishPhase::Allocating ==> state.after(
            PublishEvent::AllocationFailed,
        ).phase == PublishPhase::Failed,
{
}

/// Publishing begins with the first request, and is done at once without any.
pub proof fn law_publishing_begins_with_the_first(requests: Seq<PublishRequest>)
    ensures
        phase_of(requests, 0) == PublishPhase::Done <==> requests.len() == 0,
        requests.len() > 0 && requests[0].host_port != 0 ==> phase_of(requests, 0)
            == PublishPhase::Exposing(requests[0]),
        requests.len() > 0 && requests[0].host_port == 0 ==> phase_of(requests, 0)
            == PublishPhase::Allocating,
{
}

/// An endpoint is written as its address and its port with a colon between them, and an IPv6
/// address in brackets, so that the colon before the port can be told from its own.
pub proof fn law_endpoints_hold_address_and_port(is_v6: bool, address: Seq<char>, port: u16)
    ensures
        ({
            let text = endpoint_text(is_v6, address, port);
            let number = crate::text::decimal_text(port as nat);
            let shift: int = if is_v6 {
                1
            } else {
                0
            };
            &&& number.is_suffix_of(text)
            &&& text.subrange(shift, shift + address.len()) == address
            &&& text.len() == address.len() + number.len() + 1 + 2 * shift
            &&& text[text.len() - number.len() - 1] == ':'
            &&& is_v6 ==> text[0] == '[' && text[text.len() - number.len() - 2] == ']'
        }),
{
    reveal_strlit("[");
    reveal_strlit("]:");
    reveal_strlit(":");
    let text = endpoint_text(is_v6, address, port);
    let shift: int = if is_v6 {
        1
    } else {
        0
    };
    assert(text.subrange(shift, shift + address.len()) =~= address);
}

/// A response is a success exactly where its status lies in the two hundreds; any other status is
/// told, and a response without one is no response.
pub proof fn law_services_answer_with_a_status(text: Seq<char>)
    ensures
        text_error(text) is None <==> response_status(text) is Some && 200 <= response_status(
            text,
        )->0 <= 299,
        response_status(text) is None ==> text_error(text) == Some(
            "gvproxy services returned an invalid HTTP response"@,
        ),
        response_status(text) matches Some(status) ==> !(200 <= status <= 299) ==> {
            text_error(text) matches Some(error) && ("gvproxy services returned HTTP "@
                + crate::text::decimal_text(status)).is_prefix_of(error)
        },
{
}

/// A managed store gives a box its own disk and any other run a fresh one; without a store the
/// root is the given disk, and the given directory only where there is no disk.
pub proof fn law_roots_come_from_where_they_are_kept(managed: bool, has_box: bool, has_disk: bool)
    ensures
        root_mode_of(managed, has_box, has_disk) == RootMode::Persistent <==> managed && has_box,
        root_mode_of(managed, has_box, has_disk) == RootMode::Ephemeral <==> managed && !has_box,
        root_mode_of(managed, has_box, has_disk) == RootMode::StaticDisk <==> !managed && has_disk,
        root_mode_of(managed, has_box, has_disk) == RootMode::Directory <==> !managed && !has_disk,
{
}

/// A clean box is opened without a repair, and is ready once it is marked as in use; whatever
/// fails on the way ends the preparation.
pub proof fn law_boxes_become_ready(phase: PersistentPhase)
    ensures
        PersistentPhase::Locking.after(
            PersistentEvent::Locked(crate::libkrun::root::BoxState::Clean),
        ).after(PersistentEvent::Opened) == PersistentPhase::Ready,
        PersistentPhase::Locking.after(
            PersistentEvent::Locked(crate::libkrun::root::BoxState::Dirty),
        ).after(PersistentEvent::Repaired).after(PersistentEvent::Opened)
            == PersistentPhase::Ready,
        phase.after(PersistentEvent::Failed) == PersistentPhase::Failed,
        forall|event: PersistentEvent| #[trigger]
            phase.after(event) == PersistentPhase::Ready ==> phase == PersistentPhase::Opening
                && event == PersistentEvent::Opened,
{
}

/// A fresh root is made from its base, which is prepared only where it is missing; its disk comes
/// from the pool where the pool has one, and is cloned else.
pub proof fn law_fresh_roots_become_ready(root: EphemeralRoot, found: bool, leased: bool)
    requires
        root.wf(),
        root.phase == EphemeralPhase::LookingUp,
        !root.base_prepared,
    ensures
        ({
            let based = if found {
                root.after(EphemeralEvent::BaseFound)
            } else {
                root.after(EphemeralEvent::BaseMissing).after(EphemeralEvent::BasePrepared)
            };
            let ready = if root.has_pool && leased {
                based.after(EphemeralEvent::Leased)
            } else if root.has_pool {
                based.after(EphemeralEvent::PoolEmpty).after(EphemeralEvent::Cloned)
            } else {
                based.after(EphemeralEvent::Cloned)
            };
            &&& ready.phase == EphemeralPhase::Ready
            &&& ready.base_prepared == !found
            &&& ready.cloned == !(root.has_pool && leased)
            &&& ready.pool_hit == (if root.has_pool {
                Some(leased)
            } else {
                None
            })
        }),
        root.after(EphemeralEvent::Failed).phase == EphemeralPhase::Failed,
        !found ==> root.after(EphemeralEvent::BaseMissing).phase == EphemeralPhase::PreparingBase,
{
}

/// A machine is started step by step, root, network and helper, and what the start has to tell is
/// what each step took and how the root was prepared.
pub proof fn law_machines_are_started_step_by_step(
    state: SpawnView,
    root: crate::libkrun::spawn::RootStartup,
    rooted: int,
    networked: int,
    spawned: int,
)
    requires
        state.phase == SpawnPhase::PreparingRoot,
        state.network_setup_micros is None,
        0 <= state.since <= rooted <= networked <= spawned,
        spawned < 1_000_000_000_000_000_000,
    ensures
        ({
            let (first, action) = state.after(SpawnEvent::RootReady(root), rooted);
            let (second, next) = first.after(SpawnEvent::NetworkReady, networked);
            &&& state.network ==> {
                &&& action == SpawnActionView::StartNetwork
                &&& next == SpawnActionView::SpawnHelper
                &&& second.after(SpawnEvent::HelperReady, spawned).1 matches SpawnActionView::Done(
                    startup,
                )
                &&& startup.root_mode == Some(root.root_mode)
                &&& startup.prepared_pool_hit == root.prepared_pool_hit
                &&& startup.repair_micros == root.repair_micros
                &&& startup.disk_clone_micros == root.disk_clone_micros
                &&& startup.base_prepare_micros == root.base_prepare_micros
                &&& startup.cache_lookup_micros == root.cache_lookup_micros
                &&& startup.box_lock_micros == root.box_lock_micros
                &&& startup.prepared_lease_micros == root.prepared_lease_micros
                &&& startup.root_prepare_micros == Some(micros_between(state.since, rooted))
                &&& startup.network_setup_micros == Some(micros_between(rooted, networked))
                &&& startup.helper_spawn_micros == Some(micros_between(networked, spawned))
            }
            &&& !state.network ==> {
                &&& action == SpawnActionView::SpawnHelper
                &&& first.after(SpawnEvent::HelperReady, spawned).1 matches SpawnActionView::Done(
                    startup,
                )
                &&& startup.root_mode == Some(root.root_mode)
                &&& startup.root_prepare_micros == Some(micros_between(state.since, rooted))
                &&& startup.network_setup_micros is None
                &&& startup.helper_spawn_micros == Some(micros_between(rooted, spawned))
            }
        }),
        micros_between(rooted, networked) == (networked - rooted) / 1000,
{
}

/// What fails ends the start with its own error, and a helper that could not be started has its
/// network taken down first.
pub proof fn law_failed_starts_leave_no_network(
    state: SpawnView,
    error: crate::backend::BackendError,
    now: int,
)
    ensures
        state.after(SpawnEvent::RootFailed(error), now).1 == SpawnActionView::Fail(error@),
        state.after(SpawnEvent::NetworkFailed(error), now).1 == SpawnActionView::Fail(error@),
        !state.network ==> state.after(SpawnEvent::HelperFailed(error), now).1
            == SpawnActionView::Fail(error@),
        state.network ==> {
            let (reaping, action) = state.after(SpawnEvent::HelperFailed(error), now);
            &&& action == SpawnActionView::ReapNetwork
            &&& reaping.phase == SpawnPhase::ReapingNetwork
            &&& reaping.after(SpawnEvent::NetworkReaped(None), now).1 == SpawnActionView::Fail(
                error@,
            )
            &&& reaping.after(SpawnEvent::NetworkReaped(None), now).0.phase == SpawnPhase::Over
        },
{
}

/// A machine whose root is a disk is spoken to through its agent, and one whose root is a directory
/// through the helper's own terminal or pipes; its output comes from a terminal exactly where it
/// has one.
pub proof fn law_helpers_are_spoken_to_by_their_root(root_is_disk: bool, tty: bool)
    ensures
        route_for(root_is_disk, tty) is Protocol <==> root_is_disk,
        route_for(root_is_disk, tty) is Pty <==> !root_is_disk && tty,
        route_for(true, true) == HelperRoute::Protocol(OutputChannel::Tty),
        route_for(true, false) == HelperRoute::Protocol(OutputChannel::Stdout),
{
}

/// A new size reaches a terminal by the way on which its machine is spoken to; a machine without
/// one has no size.
pub proof fn law_sizes_reach_the_terminal(control: NativeControl)
    ensures
        resize_way(control) is None <==> control == NativeControl::Absent,
        resize_way(NativeControl::Protocol) == Some(ResizeRoute::ControlPipe),
        resize_way(NativeControl::Pty) == Some(ResizeRoute::Terminal),
{
}

/// The input of a terminal is closed by two characters, in as many writes as it takes, and by no
/// more; once its closing has begun nothing else can be written.
pub proof fn law_terminals_are_closed_by_two_characters(input: PtyInput, count: usize)
    requires
        input.wf(),
        count <= 2 - input.eof_offset,
    ensures
        input.closing().0.shutting_down,
        input.closing().0.eof_offset == input.eof_offset,
        input.closing().0.eof == input.eof,
        input.closing().1 is Close <==> input.eof_offset == 2,
        input.closing().1 matches ShutdownStep::Write(left) ==> left + input.eof_offset == 2,
        input.written(count).0.eof_offset == input.eof_offset + count,
        count > 0 && input.eof_offset + count == 2 ==> input.written(count).1 is Close,
        count > 0 && input.eof_offset + count < 2 ==> input.written(count).1 == ShutdownStep::Write(
            (2 - input.eof_offset - count) as usize,
        ),
        count == 0 ==> input.written(count).1 is WriteZero,
{
}

/// A head states where the request goes and how long its body is, and ends with an empty line.
pub proof fn law_request_heads_end_with_an_empty_line(endpoint: Seq<char>, length: nat)
    ensures
        ("POST "@ + endpoint).is_prefix_of(request_head(endpoint, length)),
        crate::text::occurs_in(request_head(endpoint, length), crate::text::decimal_text(length)),
        seq!['\r', '\n', '\r', '\n'].is_suffix_of(request_head(endpoint, length)),
{
    reveal_strlit("\r\nConnection: close\r\n\r\n");
    let head = request_head(endpoint, length);
    let number = crate::text::decimal_text(length);
    let front = "POST "@ + endpoint
        + " HTTP/1.1\r\nHost: localhost\r\nContent-Type: application/json\r\nContent-Length: "@;
    let back = "\r\nConnection: close\r\n\r\n"@;
    assert(head =~= front + number + back);
    crate::notation::law_parts_occur_in_the_whole(front, number, back);
    let end = seq!['\r', '\n', '\r', '\n'];
    assert(head.subrange(head.len() - 4, head.len() as int) =~= end);
}

/// An answer that is too long to have been read in full is no success, whatever it begins with.
pub proof fn law_answers_are_bounded(response: Seq<u8>)
    ensures
        response.len() > 65536 ==> response_error(response) is Some,
        response.len() <= 65536 ==> response_error(response) == text_error(
            crate::text::lossy_text(response),
        ),
{
}

/// A network that could not be started is reported with what stopped it, what the proxy wrote, and
/// what became of the cleanup.
pub proof fn law_failed_networks_are_reported(
    status: String,
    stderr: Vec<u8>,
    error: String,
    cleanup: Seq<char>,
)
    ensures
        cleanup_suffix(None).len() == 0,
        cleanup.is_suffix_of(cleanup_suffix(Some(cleanup))),
        crate::text::occurs_in(
            start_failure_text(StartFailure::ProxyExited { status, stderr }, None),
            status@,
        ),
        crate::text::occurs_in(
            start_failure_text(StartFailure::ProxyTooSlow { error, stderr }, None),
            error@,
        ),
        diagnostics_text(stderr@).is_suffix_of(
            start_failure_text(StartFailure::ProxyExited { status, stderr }, None),
        ),
        error@.is_suffix_of(start_failure_text(StartFailure::Relay(error), None)),
        error@.is_suffix_of(start_failure_text(StartFailure::Publish(error), None)),
        cleanup.is_suffix_of(start_failure_text(StartFailure::Relay(error), Some(cleanup))),
        stderr@.len() == 0 ==> diagnostics_text(stderr@).len() == 0,
        stderr@.len() > 0 ==> crate::text::trim_of(
            crate::text::lossy_text(stderr@),
        ).is_suffix_of(diagnostics_text(stderr@)),
{
    let tail = diagnostics_text(stderr@);
    let exited = "gvproxy exited before its vfkit endpoint was ready: "@;
    let slow =
        "gvproxy vfkit endpoint was not connectable within 5 seconds; last socket error: "@;
    let none = Seq::<char>::empty();
    assert(exited + status@ + tail + none =~= exited + status@ + tail);
    assert(slow + error@ + tail + none =~= slow + error@ + tail);
    crate::notation::law_parts_occur_in_the_whole(exited, status@, tail);
    crate::notation::law_parts_occur_in_the_whole(slow, error@, tail);
    assert("failed to start network policy relay: "@ + error@ + none
        =~= "failed to start network policy relay: "@ + error@);
    assert("failed to publish preview port: "@ + error@ + none
        =~= "failed to publish preview port: "@ + error@);
}

/// The check of a file system has left a sound disk where it found nothing or mended what it found.
pub proof fn law_mended_disks_are_sound(code: i32)
    ensures
        crate::libkrun::root::repaired(Some(code)) <==> 0 <= code <= 1,
        !crate::libkrun::root::repaired(None),
{
}

/// The firmware is looked for beside its library.
pub proof fn law_firmware_lies_beside_the_library(directory: Seq<char>, name: Seq<char>)
    requires
        directory.len() > 0,
        directory.last() != '/',
        crate::paths::trim_path(directory) == directory,
        crate::notation::is_component(name),
    ensures
        crate::libkrun::firmware_beside(directory + seq!['/'] + name) == Some(
            directory + seq!['/'] + "libkrunfw.dylib"@,
        ),
{
    reveal_strlit("libkrunfw.dylib");
    reveal_strlit("/");
    assert("/"@ =~= seq!['/']);
    crate::notation::law_parent_is_where_it_was_put(directory, name);
    assert("libkrunfw.dylib"@[0] != '/');
}

} // verus!
