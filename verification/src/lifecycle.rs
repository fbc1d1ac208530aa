//! Service lifecycle decisions: the fixed service and worker names, the
//! registration descriptor built at install time, the install decision on a
//! directory listing, the removal plan over the known services, and the
//! three-line aggregate status report.

use vstd::prelude::*;
use crate::discovery::candidates_spec;
use crate::discovery::filter_candidates;
use crate::status::{ServiceStatus, StatusView};
use crate::text::{append_chars, contains_pat, contains_pattern, copy_range, lemma_chars_deep_view};

verus! {

/// Name of the primary filtering-agent service.
pub open spec fn primary_service_name() -> Seq<char> {
    seq!['z', 'a', 'p', 'r', 'e', 't']
}

/// Name of the packet-driver service the worker depends on.
pub open spec fn driver_service_name() -> Seq<char> {
    seq!['W', 'i', 'n', 'D', 'i', 'v', 'e', 'r', 't']
}

/// Image name of the worker executable; also the invocation keyword looked
/// for in configuration files.
pub open spec fn worker_image() -> Seq<char> {
    seq!['w', 'i', 'n', 'w', 's', '.', 'e', 'x', 'e']
}

/// The primary service's name, as a vector.
pub fn primary_service_chars() -> (r: Vec<char>)
    ensures
        r@ == primary_service_name(),
{
    let mut r: Vec<char> = Vec::new();
    r.push('z');
    r.push('a');
    r.push('p');
    r.push('r');
    r.push('e');
    r.push('t');
    proof {
        assert(r@ =~= primary_service_name());
    }
    r
}

/// The driver service's name, as a vector.
pub fn driver_service_chars() -> (r: Vec<char>)
    ensures
        r@ == driver_service_name(),
{
    let mut r: Vec<char> = Vec::new();
    r.push('W');
    r.push('i');
    r.push('n');
    r.push('D');
    r.push('i');
    r.push('v');
    r.push('e');
    r.push('r');
    r.push('t');
    proof {
        assert(r@ =~= driver_service_name());
    }
    r
}

/// The worker image name, as a vector.
pub fn worker_image_chars() -> (r: Vec<char>)
    ensures
        r@ == worker_image(),
{
    let mut r: Vec<char> = Vec::new();
    r.push('w');
    r.push('i');
    r.push('n');
    r.push('w');
    r.push('s');
    r.push('.');
    r.push('e');
    r.push('x');
    r.push('e');
    proof {
        assert(r@ =~= worker_image());
    }
    r
}

/// Whether the worker process appears in the OS process listing's answer:
/// presence is a substring match of the image name in the listed output.
/// The caller treats a listing that could not run as "not present" — the
/// fail-safe reading — and reports that failure rather than crashing.
pub fn process_listed(listing_output: &Vec<char>, image: &Vec<char>) -> (b: bool)
    ensures
        b == contains_pat(listing_output@, image@),
{
    contains_pattern(listing_output, image)
}

/// How the installed service is started.
#[derive(Debug, PartialEq, Eq, Clone, Copy)]
pub enum StartMode {
    Automatic,
    Manual,
}

/// The abstract value of a registration descriptor.
pub struct DescriptorView {
    pub name: Seq<char>,
    pub binary_path: Seq<char>,
    pub arguments: Seq<char>,
    pub start_mode: StartMode,
}

/// What the service manager is asked to register: a service name, the
/// command line it will launch, and the start mode. Built transiently at
/// install time and not retained after the registration call.
#[derive(Debug)]
pub struct ServiceDescriptor {
    pub name: Vec<char>,
    pub binary_path: Vec<char>,
    pub arguments: Vec<char>,
    pub start_mode: StartMode,
}

impl View for ServiceDescriptor {
    type V = DescriptorView;

    open spec fn view(&self) -> DescriptorView {
        DescriptorView {
            name: self.name@,
            binary_path: self.binary_path@,
            arguments: self.arguments@,
            start_mode: self.start_mode,
        }
    }
}

/// The exact command line the installed service launches: the quoted worker
/// image followed by the launch arguments, verbatim.
pub open spec fn bin_path_spec(args: Seq<char>) -> Seq<char> {
    seq!['"'] + worker_image() + seq!['"', ' '] + args
}

/// A descriptor is well formed when its binary path carries its own
/// arguments behind the quoted worker image, with no re-escaping.
pub open spec fn descriptor_wf(d: DescriptorView) -> bool {
    d.binary_path == bin_path_spec(d.arguments)
}

/// Builds the command line for the given launch arguments.
pub fn make_bin_path(args: &Vec<char>) -> (r: Vec<char>)
    ensures
        r@ == bin_path_spec(args@),
{
    let mut r: Vec<char> = Vec::new();
    r.push('"');
    let img = worker_image_chars();
    append_chars(&mut r, &img);
    r.push('"');
    r.push(' ');
    append_chars(&mut r, args);
    proof {
        assert(r@ =~= bin_path_spec(args@));
    }
    r
}

/// Builds the registration descriptor for an install: the given service
/// name, the worker command line formed from the extracted arguments, and
/// automatic start.
pub fn build_descriptor(name: Vec<char>, arguments: Vec<char>) -> (d: ServiceDescriptor)
    ensures
        d@.name == name@,
        d@.arguments == arguments@,
        d@.binary_path == bin_path_spec(arguments@),
        d@.start_mode == StartMode::Automatic,
        descriptor_wf(d@),
{
    let binary_path = make_bin_path(&arguments);
    ServiceDescriptor { name, binary_path, arguments, start_mode: StartMode::Automatic }
}

/// The first decision of an install attempt: either no eligible
/// configuration exists — a reportable condition that carries nothing to
/// register, so no service-manager call can follow — or the candidate list
/// to offer the operator.
pub enum InstallStart {
    NoConfiguration,
    Select(Vec<Vec<char>>),
}

/// Decides how an install attempt proceeds from a directory listing: the
/// eligible candidates, or `NoConfiguration` exactly when there are none.
pub fn begin_install(listing: &Vec<Vec<char>>) -> (r: InstallStart)
    ensures
        (candidates_spec(listing.deep_view()).len() == 0) <==> (r is NoConfiguration),
        r matches InstallStart::Select(c) ==> c.deep_view() == candidates_spec(
            listing.deep_view(),
        ),
{
    let c = filter_candidates(listing);
    if c.len() == 0 {
        InstallStart::NoConfiguration
    } else {
        InstallStart::Select(c)
    }
}

/// One step of the removal pass.
#[derive(Debug, PartialEq, Eq, Clone, Copy)]
pub enum ServiceAction {
    Stop,
    Delete,
}

/// The abstract value of one removal step.
pub struct RemovalStepView {
    pub service: Seq<char>,
    pub action: ServiceAction,
}

/// One planned call against the service manager during removal.
#[derive(Debug)]
pub struct RemovalStep {
    pub service: Vec<char>,
    pub action: ServiceAction,
}

impl DeepView for RemovalStep {
    type V = RemovalStepView;

    open spec fn deep_view(&self) -> RemovalStepView {
        RemovalStepView { service: self.service@, action: self.action }
    }
}

/// The removal pass over a service list: for each service in order, a stop
/// step and then a delete step. The plan depends on the service list alone —
/// never on how any earlier step went — so every service is processed even
/// when another one fails.
pub open spec fn removal_plan_spec(services: Seq<Seq<char>>) -> Seq<RemovalStepView> {
    Seq::new(
        2 * services.len(),
        |i: int|
            RemovalStepView {
                service: services[i / 2],
                action: if i % 2 == 0 {
                    ServiceAction::Stop
                } else {
                    ServiceAction::Delete
                },
            },
    )
}

/// Lays out the removal pass for the given services.
pub fn removal_plan(services: &Vec<Vec<char>>) -> (r: Vec<RemovalStep>)
    ensures
        r.deep_view() == removal_plan_spec(services.deep_view()),
{
    let mut r: Vec<RemovalStep> = Vec::new();
    let mut i: usize = 0;
    while i < services.len()
        invariant
            i <= services@.len(),
            r@.len() == 2 * i,
            forall|k: int|
                0 <= k < 2 * i ==> #[trigger] removal_plan_spec(services.deep_view())[k]
                    == r.deep_view()[k],
        decreases services@.len() - i,
    {
        let stop_name = copy_range(&services[i], 0, services[i].len());
        let delete_name = copy_range(&services[i], 0, services[i].len());
        proof {
            lemma_chars_deep_view(&services@[i as int]);
            assert(stop_name@ =~= services@[i as int]@);
            assert(delete_name@ =~= services@[i as int]@);
            assert((2 * i as int) / 2 == i as int);
            assert((2 * i as int + 1) / 2 == i as int);
            assert((2 * i as int) % 2 == 0);
            assert((2 * i as int + 1) % 2 == 1);
        }
        r.push(RemovalStep { service: stop_name, action: ServiceAction::Stop });
        proof {
            assert forall|k: int| 0 <= k < 2 * i as int + 1 implies r.deep_view()[k]
                == removal_plan_spec(services.deep_view())[k] by {
                assert(r.deep_view()[k] == r@[k].deep_view());
            }
        }
        r.push(RemovalStep { service: delete_name, action: ServiceAction::Delete });
        proof {
            assert forall|k: int| 0 <= k < 2 * i as int + 2 implies r.deep_view()[k]
                == removal_plan_spec(services.deep_view())[k] by {
                assert(r.deep_view()[k] == r@[k].deep_view());
            }
        }
        i += 1;
    }
    proof {
        assert(r.deep_view() =~= removal_plan_spec(services.deep_view()));
    }
    r
}

/// For each service the plan stops it and then deletes it, at fixed places
/// that no outcome of any other step can move: removal never skips a
/// service because an earlier one failed, and repeating the pass yields the
/// same steps again.
pub proof fn lemma_removal_plan_covers(services: Seq<Seq<char>>, i: int)
    requires
        0 <= i < services.len(),
    ensures
        removal_plan_spec(services).len() == 2 * services.len(),
        removal_plan_spec(services)[2 * i].service == services[i],
        removal_plan_spec(services)[2 * i].action == ServiceAction::Stop,
        removal_plan_spec(services)[2 * i + 1].service == services[i],
        removal_plan_spec(services)[2 * i + 1].action == ServiceAction::Delete,
{
    assert((2 * i) / 2 == i);
    assert((2 * i + 1) / 2 == i);
    assert((2 * i) % 2 == 0);
    assert((2 * i + 1) % 2 == 1);
}

/// What the OS reported of one invoked service-manager command.
#[derive(Debug, PartialEq, Eq, Clone, Copy)]
pub enum CommandOutcome {
    /// The command ran; the payload tells whether it reported success.
    Completed(bool),
    /// The command could not be started at all.
    LaunchFailed,
}

/// How one service's delete step is reported to the operator.
#[derive(Debug, PartialEq, Eq, Clone, Copy)]
pub enum RemovalNote {
    Removed,
    RemovalFailed,
    /// The delete command could not be launched; nothing is reported for
    /// this service, and the pass still continues with the next one.
    NotReported,
}

/// What each delete outcome is reported as.
pub open spec fn classify_removal_spec(outcome: CommandOutcome) -> RemovalNote {
    match outcome {
        CommandOutcome::Completed(true) => RemovalNote::Removed,
        CommandOutcome::Completed(false) => RemovalNote::RemovalFailed,
        CommandOutcome::LaunchFailed => RemovalNote::NotReported,
    }
}

/// Reports one service's delete outcome. Total over every outcome: a failed
/// delete — as on a second removal pass, when the service is already gone —
/// is reported as a failure and never aborts the pass.
pub fn classify_removal(outcome: CommandOutcome) -> (r: RemovalNote)
    ensures
        r == classify_removal_spec(outcome),
{
    match outcome {
        CommandOutcome::Completed(true) => RemovalNote::Removed,
        CommandOutcome::Completed(false) => RemovalNote::RemovalFailed,
        CommandOutcome::LaunchFailed => RemovalNote::NotReported,
    }
}

/// The display class of a service's status line in the aggregate report:
/// running and stopped states show themselves; everything else, a pending
/// start or an unrecognized code included, is shown as not found.
pub open spec fn display_spec(s: StatusView) -> Seq<char> {
    match s {
        StatusView::Running => "RUNNING"@,
        StatusView::Stopped => "STOPPED"@,
        StatusView::StopPending => "STOP_PENDING"@,
        _ => "NOT FOUND"@,
    }
}

/// The worker-process line of the aggregate report.
pub open spec fn worker_display_spec(running: bool) -> Seq<char> {
    if running {
        "RUNNING"@
    } else {
        "NOT RUNNING"@
    }
}

/// Renders one service's status line.
pub fn status_display(s: &ServiceStatus) -> (r: &'static str)
    ensures
        r@ == display_spec(s@),
{
    match s {
        ServiceStatus::Running => "RUNNING",
        ServiceStatus::Stopped => "STOPPED",
        ServiceStatus::StopPending => "STOP_PENDING",
        _ => "NOT FOUND",
    }
}

/// Renders the worker-process line.
pub fn worker_display(running: bool) -> (r: &'static str)
    ensures
        r@ == worker_display_spec(running),
{
    if running {
        "RUNNING"
    } else {
        "NOT RUNNING"
    }
}

/// The aggregate status report: three lines, one per entity, each derived
/// from its own entity alone.
pub struct StatusReport {
    pub primary: &'static str,
    pub driver: &'static str,
    pub worker: &'static str,
}

/// Builds the aggregate report from the primary service's status, the
/// driver service's status, and the worker process's presence. Each line
/// depends only on its own input.
pub fn status_report(primary: &ServiceStatus, driver: &ServiceStatus, worker_running: bool) -> (r:
    StatusReport)
    ensures
        r.primary@ == display_spec(primary@),
        r.driver@ == display_spec(driver@),
        r.worker@ == worker_display_spec(worker_running),
{
    StatusReport {
        primary: status_display(primary),
        driver: status_display(driver),
        worker: worker_display(worker_running),
    }
}

/// No line of the report couples to another entity: two reports agree on a
/// line whenever they agree on that line's own input, whatever the other
/// two inputs are.
pub proof fn lemma_report_lines_independent(
    p1: StatusView,
    d1: StatusView,
    w1: bool,
    p2: StatusView,
    d2: StatusView,
    w2: bool,
)
    ensures
        p1 == p2 ==> display_spec(p1) == display_spec(p2),
        d1 == d2 ==> display_spec(d1) == display_spec(d2),
        w1 == w2 ==> worker_display_spec(w1) == worker_display_spec(w2),
{
}

} // verus!
