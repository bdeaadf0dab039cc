use vstd::prelude::*;
use vstd::string::*;
use crate::docker::{BuildSpec, NetworkSpec, network_name};
use crate::conf::{JinxConf, registered};
use crate::error::JinxError;
use crate::service::{JinxService, service_valid, strings_view};

verus! {

/// The command that the arguments select.
#[derive(Debug, Clone, Copy, PartialEq, Eq, Structural)]
pub enum Command {
    Help,
    Version,
    Init,
    Load,
    Build,
}

/// The command selected by the arguments: `-h`, then `-v`, `init`, `load`
/// and `build`, the first present anywhere in the arguments wins; help
/// otherwise.
pub open spec fn command_of(args: Seq<Seq<char>>) -> Command {
    if args.contains("-h"@) {
        Command::Help
    } else if args.contains("-v"@) {
        Command::Version
    } else if args.contains("init"@) {
        Command::Init
    } else if args.contains("load"@) {
        Command::Load
    } else if args.contains("build"@) {
        Command::Build
    } else {
        Command::Help
    }
}

fn has_arg(args: &Vec<String>, word: &str) -> (r: bool)
    ensures
        r == strings_view(args@).contains(word@),
{
    let w = String::from_str(word);
    let mut i: usize = 0;
    while i < args.len()
        invariant
            i <= args@.len(),
            w@ == word@,
            forall|k: int| 0 <= k < i ==> args@[k]@ != word@,
        decreases args.len() - i,
    {
        if args[i] == w {
            assert(strings_view(args@)[i as int] == word@);
            return true;
        }
        i = i + 1;
    }
    assert(!strings_view(args@).contains(word@)) by {
        if strings_view(args@).contains(word@) {
            let k = choose|k: int| 0 <= k < strings_view(args@).len() && strings_view(args@)[k] == word@;
            assert(args@[k]@ == word@);
        }
    }
    false
}

/// The command that the command-line arguments ask for.
pub fn handle_args(args: &Vec<String>) -> (r: Command)
    ensures
        r == command_of(strings_view(args@)),
{
    if has_arg(args, "-h") {
        Command::Help
    } else if has_arg(args, "-v") {
        Command::Version
    } else if has_arg(args, "init") {
        Command::Init
    } else if has_arg(args, "load") {
        Command::Load
    } else if has_arg(args, "build") {
        Command::Build
    } else {
        Command::Help
    }
}

/// The step of the `load` command that is running.
#[derive(Debug, Clone, Copy, PartialEq, Eq, Structural)]
pub enum LoadStage {
    /// Saving the registry with the descriptor registered.
    Registering,
    /// Packaging the build context.
    Packaging,
    /// Building the image.
    Building,
    /// Creating the service.
    Deploying,
    /// Writing the proxy configuration.
    Regenerating,
    /// Every step succeeded.
    Done,
    /// A step failed; nothing more is done.
    Failed,
}

/// What the caller is to do next.
#[derive(Debug, Clone, Copy, PartialEq, Eq, Structural)]
pub enum LoadAction {
    SaveRegistry,
    Pack,
    BuildImage,
    DeployService,
    WriteProxyConfig,
    Finish,
    Abort,
}

/// The stage that the `load` command starts in, and its action.
pub open spec fn load_start() -> (LoadStage, LoadAction) {
    (LoadStage::Registering, LoadAction::SaveRegistry)
}

/// After the running step ends (`ok` when it succeeded): the next stage and
/// its action. A failure aborts every remaining step; the end stages stay.
pub open spec fn load_step(stage: LoadStage, ok: bool) -> (LoadStage, LoadAction) {
    match stage {
        LoadStage::Done => (LoadStage::Done, LoadAction::Finish),
        LoadStage::Failed => (LoadStage::Failed, LoadAction::Abort),
        _ => if !ok {
            (LoadStage::Failed, LoadAction::Abort)
        } else {
            match stage {
                LoadStage::Registering => (LoadStage::Packaging, LoadAction::Pack),
                LoadStage::Packaging => (LoadStage::Building, LoadAction::BuildImage),
                LoadStage::Building => (LoadStage::Deploying, LoadAction::DeployService),
                LoadStage::Deploying => (LoadStage::Regenerating, LoadAction::WriteProxyConfig),
                _ => (LoadStage::Done, LoadAction::Finish),
            }
        },
    }
}

/// Starts the `load` command: checks the descriptor and registers it (see
/// `registered`), then asks for the registry to be saved. An invalid
/// descriptor is a `Config` error naming it, and the registry is left as it
/// was.
pub fn load(conf: &mut JinxConf, service: &JinxService) -> (r: Result<(LoadStage, LoadAction), JinxError>)
    ensures
        service_valid(service@) ==> r == Ok::<(LoadStage, LoadAction), JinxError>(load_start())
            && final(conf)@ == registered(old(conf)@, service@),
        !service_valid(service@) ==> r == Err::<(LoadStage, LoadAction), JinxError>(
            JinxError::Config(service.name),
        ) && final(conf)@ == old(conf)@,
{
    match service.validate() {
        Ok(()) => {
            conf.upsert(service.copy());
            Ok((LoadStage::Registering, LoadAction::SaveRegistry))
        },
        Err(e) => Err(e),
    }
}

/// One step of the `load` command: register, package, build, deploy,
/// regenerate the proxy configuration, in that order, stopping at the first
/// failure.
pub fn load_next(stage: LoadStage, ok: bool) -> (r: (LoadStage, LoadAction))
    ensures
        r == load_step(stage, ok),
{
    match stage {
        LoadStage::Done => (LoadStage::Done, LoadAction::Finish),
        LoadStage::Failed => (LoadStage::Failed, LoadAction::Abort),
        _ => if !ok {
            (LoadStage::Failed, LoadAction::Abort)
        } else {
            match stage {
                LoadStage::Registering => (LoadStage::Packaging, LoadAction::Pack),
                LoadStage::Packaging => (LoadStage::Building, LoadAction::BuildImage),
                LoadStage::Building => (LoadStage::Deploying, LoadAction::DeployService),
                LoadStage::Deploying => (LoadStage::Regenerating, LoadAction::WriteProxyConfig),
                _ => (LoadStage::Done, LoadAction::Finish),
            }
        },
    }
}

/// The actions asked for, from `stage` on, when the steps end as `outcomes`
/// says.
pub open spec fn load_trace(stage: LoadStage, outcomes: Seq<bool>) -> Seq<LoadAction>
    decreases outcomes.len(),
{
    if outcomes.len() == 0 {
        Seq::empty()
    } else {
        let (next, action) = load_step(stage, outcomes[0]);
        seq![action] + load_trace(next, outcomes.drop_first())
    }
}

/// An action that calls the container runtime.
pub open spec fn is_runtime_action(a: LoadAction) -> bool {
    a == LoadAction::BuildImage || a == LoadAction::DeployService
}

/// Once failed, the command only aborts.
pub proof fn lemma_failed_stays_failed(outcomes: Seq<bool>)
    ensures
        forall|k: int| 0 <= k < load_trace(LoadStage::Failed, outcomes).len() ==>
            #[trigger] load_trace(LoadStage::Failed, outcomes)[k] == LoadAction::Abort,
        load_trace(LoadStage::Failed, outcomes).len() == outcomes.len(),
    decreases outcomes.len(),
{
    if outcomes.len() > 0 {
        lemma_failed_stays_failed(outcomes.drop_first());
        let t = load_trace(LoadStage::Failed, outcomes);
        let rest = load_trace(LoadStage::Failed, outcomes.drop_first());
        assert forall|k: int| 0 <= k < t.len() implies #[trigger] t[k] == LoadAction::Abort by {
            if k > 0 {
                assert(t[k] == rest[k - 1]);
            }
        }
    }
}

/// A failed packaging step ends the command before any call to the
/// container runtime, whatever would have followed.
pub proof fn lemma_pack_failure_stops_before_runtime(outcomes: Seq<bool>)
    requires
        outcomes.len() > 0,
        !outcomes[0],
    ensures
        forall|k: int| 0 <= k < load_trace(LoadStage::Packaging, outcomes).len() ==>
            !is_runtime_action(#[trigger] load_trace(LoadStage::Packaging, outcomes)[k]),
{
    lemma_failed_stays_failed(outcomes.drop_first());
    let t = load_trace(LoadStage::Packaging, outcomes);
    let rest = load_trace(LoadStage::Failed, outcomes.drop_first());
    assert forall|k: int| 0 <= k < t.len() implies !is_runtime_action(#[trigger] t[k]) by {
        if k > 0 {
            assert(t[k] == rest[k - 1]);
        }
    }
}

/// The shared overlay network that `init` creates.
pub fn init() -> (r: NetworkSpec)
    ensures
        r.name@ == network_name(),
        r.driver@ == "overlay"@,
        r.check_duplicate,
        !r.internal,
{
    NetworkSpec {
        name: String::from_str("jinx_network"),
        driver: String::from_str("overlay"),
        check_duplicate: true,
        internal: false,
    }
}

/// The image build of a service: the project's `Dockerfile`, tagged with
/// the service's image name.
pub fn build(service: &JinxService) -> (r: BuildSpec)
    ensures
        r.dockerfile@ == "Dockerfile"@,
        r.tag@ == service.image_name@,
{
    BuildSpec { dockerfile: String::from_str("Dockerfile"), tag: service.image_name.clone() }
}

} // verus!
