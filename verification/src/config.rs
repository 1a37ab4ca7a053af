//! What a configuration asks the manager to hold, and in which order.

use crate::error::ExtractError;
use vstd::prelude::*;

verus! {

/// The KME that runs here.
#[derive(Debug)]
pub struct ThisKmeConfig {
    pub id: i64,
    pub nickname: Option<String>,
    pub db_uri: String,
    pub key_directory_to_watch: String,
    pub delete_key_file_after_read: bool,
}

/// Another KME that keys are shared with.
#[derive(Debug)]
pub struct OtherKmeConfig {
    pub id: i64,
    pub key_directory_to_watch: String,
    pub inter_kme_bind_address: String,
    pub https_client_authentication_certificate: String,
    pub https_client_authentication_certificate_password: String,
    pub ignore_system_proxy_settings: Option<bool>,
}

/// An SAE that asks for keys.
#[derive(Debug)]
pub struct SaeConfig {
    pub id: i64,
    pub kme_id: i64,
    pub https_client_certificate_serial: Option<Vec<u8>>,
}

/// The part of the configuration that the manager is filled from.
#[derive(Debug)]
pub struct Config {
    pub this_kme_config: ThisKmeConfig,
    pub other_kme_configs: Vec<OtherKmeConfig>,
    pub sae_configs: Vec<SaeConfig>,
}

/// One thing that is asked of the manager.
#[derive(Debug, Clone, Copy)]
pub enum StartupStep<'a> {
    /// Create the manager.
    CreateManager { db_uri: &'a String, kme_id: i64, nickname: &'a Option<String> },
    /// Add an SAE.
    AddSae { id: i64, kme_id: i64, certificate_serial: &'a Option<Vec<u8>> },
    /// Import the keys in a directory, and watch it for new ones.
    WatchKeyDir { kme_id: i64, dir: &'a String, delete_key_files_afterwards: bool },
    /// Add how to reach another KME.
    AddKmeNetInfo {
        kme_id: i64,
        bind_address: &'a String,
        certificate: &'a String,
        certificate_password: &'a String,
        ignore_system_proxy: bool,
    },
}

/// The step that creates the manager.
pub open spec fn manager_step<'a>(config: &'a Config) -> StartupStep<'a> {
    StartupStep::CreateManager {
        db_uri: &config.this_kme_config.db_uri,
        kme_id: config.this_kme_config.id,
        nickname: &config.this_kme_config.nickname,
    }
}

/// The step that adds an SAE.
pub open spec fn sae_step<'a>(sae: &'a SaeConfig) -> StartupStep<'a> {
    StartupStep::AddSae {
        id: sae.id,
        kme_id: sae.kme_id,
        certificate_serial: &sae.https_client_certificate_serial,
    }
}

/// The steps that add the SAEs: one for each, in order.
pub open spec fn sae_steps<'a>(config: &'a Config) -> Seq<StartupStep<'a>> {
    Seq::new(config.sae_configs@.len(), |i: int| sae_step(&config.sae_configs@[i]))
}

/// The step that imports and watches the keys shared with another KME. Whether files are deleted
/// is a setting of this KME.
pub open spec fn other_watch_step<'a>(config: &'a Config, i: int) -> StartupStep<'a> {
    StartupStep::WatchKeyDir {
        kme_id: config.other_kme_configs@[i].id,
        dir: &config.other_kme_configs@[i].key_directory_to_watch,
        delete_key_files_afterwards: config.this_kme_config.delete_key_file_after_read,
    }
}

/// The step that imports and watches the keys of this KME itself.
pub open spec fn this_watch_step<'a>(config: &'a Config) -> StartupStep<'a> {
    StartupStep::WatchKeyDir {
        kme_id: config.this_kme_config.id,
        dir: &config.this_kme_config.key_directory_to_watch,
        delete_key_files_afterwards: config.this_kme_config.delete_key_file_after_read,
    }
}

/// The steps that import and watch keys: one for each other KME, in order, then one for this
/// KME.
pub open spec fn watch_steps<'a>(config: &'a Config) -> Seq<StartupStep<'a>> {
    Seq::new(config.other_kme_configs@.len(), |i: int| other_watch_step(config, i)).push(
        this_watch_step(config),
    )
}

/// The step that adds how to reach another KME. A setting that is left out takes the default.
pub open spec fn kme_net_info_step<'a>(
    kme: &'a OtherKmeConfig,
    ignore_system_proxy_by_default: bool,
) -> StartupStep<'a> {
    StartupStep::AddKmeNetInfo {
        kme_id: kme.id,
        bind_address: &kme.inter_kme_bind_address,
        certificate: &kme.https_client_authentication_certificate,
        certificate_password: &kme.https_client_authentication_certificate_password,
        ignore_system_proxy: match kme.ignore_system_proxy_settings {
            Some(ignore) => ignore,
            None => ignore_system_proxy_by_default,
        },
    }
}

/// The steps that add how to reach the other KMEs: one for each, in order.
pub open spec fn kme_net_info_steps<'a>(
    config: &'a Config,
    ignore_system_proxy_by_default: bool,
) -> Seq<StartupStep<'a>> {
    Seq::new(
        config.other_kme_configs@.len(),
        |i: int| kme_net_info_step(&config.other_kme_configs@[i], ignore_system_proxy_by_default),
    )
}

/// All steps, in order: the manager, the SAEs, the keys, and the addresses of the other KMEs.
pub open spec fn startup_steps<'a>(
    config: &'a Config,
    ignore_system_proxy_by_default: bool,
) -> Seq<StartupStep<'a>> {
    seq![manager_step(config)] + sae_steps(config) + watch_steps(config) + kme_net_info_steps(
        config,
        ignore_system_proxy_by_default,
    )
}

impl Config {
    /// The steps that add the SAEs.
    pub fn sae_steps<'a>(&'a self) -> (steps: Vec<StartupStep<'a>>)
        ensures
            steps@ == sae_steps(self),
    {
        let mut steps: Vec<StartupStep<'a>> = Vec::new();
        for i in 0..self.sae_configs.len()
            invariant
                steps@ == sae_steps(self).take(i as int),
        {
            let sae = &self.sae_configs[i];
            steps.push(
                StartupStep::AddSae {
                    id: sae.id,
                    kme_id: sae.kme_id,
                    certificate_serial: &sae.https_client_certificate_serial,
                },
            );
            assert(steps@ =~= sae_steps(self).take(i + 1));
        }
        assert(steps@ =~= sae_steps(self));
        steps
    }

    /// The steps that import and watch keys.
    pub fn watch_steps<'a>(&'a self) -> (steps: Vec<StartupStep<'a>>)
        ensures
            steps@ == watch_steps(self),
    {
        let delete_key_files_afterwards = self.this_kme_config.delete_key_file_after_read;
        let mut steps: Vec<StartupStep<'a>> = Vec::new();
        for i in 0..self.other_kme_configs.len()
            invariant
                delete_key_files_afterwards == self.this_kme_config.delete_key_file_after_read,
                steps@ == watch_steps(self).take(i as int),
        {
            let kme = &self.other_kme_configs[i];
            steps.push(
                StartupStep::WatchKeyDir {
                    kme_id: kme.id,
                    dir: &kme.key_directory_to_watch,
                    delete_key_files_afterwards,
                },
            );
            assert(steps@ =~= watch_steps(self).take(i + 1));
        }
        steps.push(
            StartupStep::WatchKeyDir {
                kme_id: self.this_kme_config.id,
                dir: &self.this_kme_config.key_directory_to_watch,
                delete_key_files_afterwards,
            },
        );
        assert(steps@ =~= watch_steps(self));
        steps
    }

    /// The steps that add how to reach the other KMEs.
    pub fn kme_net_info_steps<'a>(&'a self, ignore_system_proxy_by_default: bool) -> (steps: Vec<
        StartupStep<'a>,
    >)
        ensures
            steps@ == kme_net_info_steps(self, ignore_system_proxy_by_default),
    {
        let mut steps: Vec<StartupStep<'a>> = Vec::new();
        for i in 0..self.other_kme_configs.len()
            invariant
                steps@ == kme_net_info_steps(self, ignore_system_proxy_by_default).take(i as int),
        {
            let kme = &self.other_kme_configs[i];
            steps.push(
                StartupStep::AddKmeNetInfo {
                    kme_id: kme.id,
                    bind_address: &kme.inter_kme_bind_address,
                    certificate: &kme.https_client_authentication_certificate,
                    certificate_password: &kme.https_client_authentication_certificate_password,
                    ignore_system_proxy: match kme.ignore_system_proxy_settings {
                        Some(ignore) => ignore,
                        None => ignore_system_proxy_by_default,
                    },
                },
            );
            assert(steps@ =~= kme_net_info_steps(self, ignore_system_proxy_by_default).take(i + 1));
        }
        assert(steps@ =~= kme_net_info_steps(self, ignore_system_proxy_by_default));
        steps
    }

    /// All steps, in order.
    pub fn startup_steps<'a>(&'a self, ignore_system_proxy_by_default: bool) -> (steps: Vec<
        StartupStep<'a>,
    >)
        ensures
            steps@ == startup_steps(self, ignore_system_proxy_by_default),
    {
        let mut steps: Vec<StartupStep<'a>> = Vec::new();
        steps.push(
            StartupStep::CreateManager {
                db_uri: &self.this_kme_config.db_uri,
                kme_id: self.this_kme_config.id,
                nickname: &self.this_kme_config.nickname,
            },
        );
        let mut saes = self.sae_steps();
        let mut watches = self.watch_steps();
        let mut kmes = self.kme_net_info_steps(ignore_system_proxy_by_default);
        steps.append(&mut saes);
        steps.append(&mut watches);
        steps.append(&mut kmes);
        assert(steps@ =~= startup_steps(self, ignore_system_proxy_by_default));
        steps
    }
}

/// What came of a step.
#[derive(Debug)]
pub enum StepReply {
    /// The step succeeded.
    Done,
    /// The manager refused the step. Holds the text of its error.
    Refused(String),
    /// A key directory could not be imported or watched.
    WatchFailed(ExtractError),
}

/// The error that a step ends with, if the reply is a failure that the step can have.
pub open spec fn step_error(step: StartupStep<'_>, reply: StepReply) -> Option<ExtractError> {
    match (step, reply) {
        (StartupStep::CreateManager { .. }, StepReply::Refused(e)) => Some(
            ExtractError::CreateManager(e),
        ),
        (StartupStep::AddSae { .. }, StepReply::Refused(e)) => Some(ExtractError::AddSae(e)),
        (StartupStep::AddKmeNetInfo { .. }, StepReply::Refused(e)) => Some(
            ExtractError::AddKmeNetInfo(e),
        ),
        (StartupStep::WatchKeyDir { .. }, StepReply::WatchFailed(e)) => Some(e),
        _ => None,
    }
}

/// The mathematical state of the start of a manager.
pub struct StartupState<'a> {
    /// All steps.
    pub steps: Seq<StartupStep<'a>>,
    /// The number of steps that succeeded.
    pub done: int,
    /// Why the start failed, if it did.
    pub failure: Option<ExtractError>,
}

/// The step that is to be done next: none once all are done or one failed.
pub open spec fn next_step<'a>(state: StartupState<'a>) -> Option<StartupStep<'a>> {
    if state.failure is None && 0 <= state.done < state.steps.len() {
        Some(state.steps[state.done])
    } else {
        None
    }
}

/// The state after a reply. A reply that does not fit the step changes nothing.
pub open spec fn startup_replied<'a>(state: StartupState<'a>, reply: StepReply) -> StartupState<
    'a,
> {
    match next_step(state) {
        None => state,
        Some(step) => match reply {
            StepReply::Done => StartupState { done: state.done + 1, ..state },
            _ => StartupState { failure: step_error(step, reply), ..state },
        },
    }
}

/// The start of a manager.
#[derive(Debug)]
pub struct Startup<'a> {
    steps: Vec<StartupStep<'a>>,
    done: usize,
    failure: Option<ExtractError>,
}

impl<'a> View for Startup<'a> {
    type V = StartupState<'a>;

    closed spec fn view(&self) -> StartupState<'a> {
        StartupState { steps: self.steps@, done: self.done as int, failure: self.failure }
    }
}

impl<'a> Startup<'a> {
    /// The start of a manager for a configuration, before anything is done.
    pub fn new(config: &'a Config, ignore_system_proxy_by_default: bool) -> (startup: Startup<'a>)
        ensures
            startup@.steps == startup_steps(config, ignore_system_proxy_by_default),
            startup@.done == 0,
            startup@.failure is None,
            startup@.steps.len() == 2 + config.sae_configs@.len() + 2
                * config.other_kme_configs@.len(),
    {
        Startup {
            steps: config.startup_steps(ignore_system_proxy_by_default),
            done: 0,
            failure: None,
        }
    }

    /// The step that is to be done next: none once all are done or one failed.
    pub fn next_step(&self) -> (step: Option<StartupStep<'a>>)
        ensures
            step == next_step(self@),
    {
        if self.failure.is_none() && self.done < self.steps.len() {
            Some(self.steps[self.done])
        } else {
            None
        }
    }

    /// Takes what came of the step.
    pub fn advance(self, reply: StepReply) -> (next: Startup<'a>)
        ensures
            next@ == startup_replied(self@, reply),
    {
        if self.failure.is_some() || self.done >= self.steps.len() {
            return self;
        }
        let step = self.steps[self.done];
        let Startup { steps, done, failure: _ } = self;
        match (step, reply) {
            (_, StepReply::Done) => Startup { steps, done: done + 1, failure: None },
            (StartupStep::CreateManager { .. }, StepReply::Refused(e)) => Startup {
                steps,
                done,
                failure: Some(ExtractError::CreateManager(e)),
            },
            (StartupStep::AddSae { .. }, StepReply::Refused(e)) => Startup {
                steps,
                done,
                failure: Some(ExtractError::AddSae(e)),
            },
            (StartupStep::AddKmeNetInfo { .. }, StepReply::Refused(e)) => Startup {
                steps,
                done,
                failure: Some(ExtractError::AddKmeNetInfo(e)),
            },
            (StartupStep::WatchKeyDir { .. }, StepReply::WatchFailed(e)) => Startup {
                steps,
                done,
                failure: Some(e),
            },
            _ => Startup { steps, done, failure: None },
        }
    }

    /// Why the start failed, if it did.
    pub fn into_failure(self) -> (failure: Option<ExtractError>)
        ensures
            failure == self@.failure,
    {
        self.failure
    }
}

/// The place of a step in the order of a start.
pub open spec fn step_rank(step: StartupStep<'_>) -> int {
    match step {
        StartupStep::CreateManager { .. } => 0,
        StartupStep::AddSae { .. } => 1,
        StartupStep::WatchKeyDir { .. } => 2,
        StartupStep::AddKmeNetInfo { .. } => 3,
    }
}

/// The manager is created once and first, every SAE is added before any key is imported, and
/// every key directory is imported before any address is added. The directory of this KME is the
/// last one.
pub proof fn law_startup_order(config: &Config, ignore_system_proxy_by_default: bool)
    ensures
        ({
            let steps = startup_steps(config, ignore_system_proxy_by_default);
            let last_watch = config.sae_configs@.len() + config.other_kme_configs@.len() + 1;
            &&& steps[0] == manager_step(config)
            &&& forall|i: int| 0 < i < steps.len() ==> step_rank(#[trigger] steps[i]) > 0
            &&& forall|i: int, j: int|
                0 <= i <= j < steps.len() ==> step_rank(#[trigger] steps[i]) <= step_rank(
                    #[trigger] steps[j],
                )
            &&& steps[last_watch as int] == this_watch_step(config)
            &&& forall|i: int| last_watch < i < steps.len() ==> step_rank(#[trigger] steps[i]) == 3
        }),
{
}

/// The state after some replies.
pub open spec fn startup_run<'a>(start: StartupState<'a>, replies: Seq<StepReply>) -> StartupState<
    'a,
>
    decreases replies.len(),
{
    if replies.len() == 0 {
        start
    } else {
        startup_replied(startup_run(start, replies.drop_last()), replies.last())
    }
}

/// As long as every step succeeds, the steps are done one by one, in order.
pub proof fn law_startup_in_order(start: StartupState<'_>, replies: Seq<StepReply>)
    requires
        start.done == 0,
        start.failure is None,
        replies.len() <= start.steps.len(),
        forall|i: int| 0 <= i < replies.len() ==> #[trigger] replies[i] == StepReply::Done,
    ensures
        startup_run(start, replies) == (StartupState { done: replies.len() as int, ..start }),
        next_step(startup_run(start, replies)) == if replies.len() < start.steps.len() {
            Some(start.steps[replies.len() as int])
        } else {
            None
        },
    decreases replies.len(),
{
    if replies.len() > 0 {
        let before = replies.drop_last();
        assert forall|i: int| 0 <= i < before.len() implies #[trigger] before[i]
            == StepReply::Done by {
            assert(replies[i] == before[i]);
        }
        law_startup_in_order(start, before);
        assert(replies[replies.len() - 1] == StepReply::Done);
    }
}

/// The first step that fails ends the start with its error: no step is done after it.
pub proof fn law_startup_stops_at_failure(
    start: StartupState<'_>,
    replies: Seq<StepReply>,
    at: int,
)
    requires
        start.done == 0,
        start.failure is None,
        0 <= at < replies.len(),
        at < start.steps.len(),
        forall|i: int| 0 <= i < at ==> #[trigger] replies[i] == StepReply::Done,
        step_error(start.steps[at], replies[at]) is Some,
    ensures
        startup_run(start, replies) == (StartupState {
            done: at,
            failure: step_error(start.steps[at], replies[at]),
            ..start
        }),
        next_step(startup_run(start, replies)) is None,
    decreases replies.len(),
{
    let before = replies.drop_last();
    if at == replies.len() - 1 {
        assert forall|i: int| 0 <= i < before.len() implies #[trigger] before[i]
            == StepReply::Done by {
            assert(replies[i] == before[i]);
        }
        law_startup_in_order(start, before);
    } else {
        assert(before[at] == replies[at]);
        assert forall|i: int| 0 <= i < at implies #[trigger] before[i] == StepReply::Done by {
            assert(replies[i] == before[i]);
        }
        law_startup_stops_at_failure(start, before, at);
    }
}

/// Every configured SAE is added, in order: step `1 + i` adds SAE `i`, with its own id, KME and
/// certificate serial.
pub proof fn law_every_sae_is_added(config: &Config, ignore_system_proxy_by_default: bool, i: int)
    requires
        0 <= i < config.sae_configs@.len(),
    ensures
        sae_steps(config).len() == config.sae_configs@.len(),
        sae_steps(config)[i] == startup_steps(config, ignore_system_proxy_by_default)[1 + i],
        startup_steps(config, ignore_system_proxy_by_default)[1 + i] matches StartupStep::AddSae {
            id,
            kme_id,
            certificate_serial,
        } && {
            &&& id == config.sae_configs@[i].id
            &&& kme_id == config.sae_configs@[i].kme_id
            &&& *certificate_serial == config.sae_configs@[i].https_client_certificate_serial
        },
{
}

/// Every key directory is imported and watched, in order, after the SAEs: first that of each
/// other KME, with its own id and directory, then that of this KME. Whether files are deleted is
/// the one setting of this KME.
pub proof fn law_every_key_dir_is_watched(
    config: &Config,
    ignore_system_proxy_by_default: bool,
    i: int,
)
    requires
        0 <= i <= config.other_kme_configs@.len(),
    ensures
        watch_steps(config).len() == config.other_kme_configs@.len() + 1,
        watch_steps(config)[i] == startup_steps(config, ignore_system_proxy_by_default)[1
            + config.sae_configs@.len() + i],
        watch_steps(config)[i] matches StartupStep::WatchKeyDir {
            kme_id,
            dir,
            delete_key_files_afterwards,
        } && {
            &&& delete_key_files_afterwards == config.this_kme_config.delete_key_file_after_read
            &&& i < config.other_kme_configs@.len() ==> {
                &&& kme_id == config.other_kme_configs@[i].id
                &&& *dir == config.other_kme_configs@[i].key_directory_to_watch
            }
            &&& i == config.other_kme_configs@.len() ==> {
                &&& kme_id == config.this_kme_config.id
                &&& *dir == config.this_kme_config.key_directory_to_watch
            }
        },
{
}

/// The address of every other KME is added, in order, last of all, with its own id, address,
/// certificate and password; and the proxy setting is its own where it has one, and the default
/// where it has none.
pub proof fn law_every_kme_address_is_added(
    config: &Config,
    ignore_system_proxy_by_default: bool,
    i: int,
)
    requires
        0 <= i < config.other_kme_configs@.len(),
    ensures
        kme_net_info_steps(config, ignore_system_proxy_by_default).len()
            == config.other_kme_configs@.len(),
        kme_net_info_steps(config, ignore_system_proxy_by_default)[i] == startup_steps(
            config,
            ignore_system_proxy_by_default,
        )[2 + config.sae_configs@.len() + config.other_kme_configs@.len() + i],
        kme_net_info_steps(
            config,
            ignore_system_proxy_by_default,
        )[i] matches StartupStep::AddKmeNetInfo {
            kme_id,
            bind_address,
            certificate,
            certificate_password,
            ignore_system_proxy,
        } && {
            let kme = config.other_kme_configs@[i];
            &&& kme_id == kme.id
            &&& *bind_address == kme.inter_kme_bind_address
            &&& *certificate == kme.https_client_authentication_certificate
            &&& *certificate_password == kme.https_client_authentication_certificate_password
            &&& kme.ignore_system_proxy_settings == Some(ignore_system_proxy) || (
            kme.ignore_system_proxy_settings is None && ignore_system_proxy
                == ignore_system_proxy_by_default)
        },
{
}

/// The first step creates the manager, with the database, the id and the nickname of this KME;
/// and there is no step besides this one and those for the SAEs, directories and addresses.
pub proof fn law_manager_is_created_first(config: &Config, ignore_system_proxy_by_default: bool)
    ensures
        startup_steps(config, ignore_system_proxy_by_default).len() == 2
            + config.sae_configs@.len() + 2 * config.other_kme_configs@.len(),
        startup_steps(config, ignore_system_proxy_by_default)[0] matches StartupStep::CreateManager {
            db_uri,
            kme_id,
            nickname,
        } && {
            &&& *db_uri == config.this_kme_config.db_uri
            &&& kme_id == config.this_kme_config.id
            &&& *nickname == config.this_kme_config.nickname
        },
{
}

/// A refusal of the manager ends a start with the error of the step it refused, and holds the
/// text of the refusal; a directory that cannot be watched ends it with that error. The steps
/// and the number of those done stay as they are.
pub proof fn law_startup_failures(state: StartupState<'_>, cause: String, error: ExtractError)
    requires
        state.failure is None,
        0 <= state.done < state.steps.len(),
    ensures
        ({
            let refused = startup_replied(state, StepReply::Refused(cause));
            let failed = startup_replied(state, StepReply::WatchFailed(error));
            &&& refused.steps == state.steps && refused.done == state.done
            &&& failed.steps == state.steps && failed.done == state.done
            &&& match state.steps[state.done] {
                StartupStep::CreateManager { .. } => {
                    &&& refused.failure == Some(ExtractError::CreateManager(cause))
                    &&& failed.failure is None
                },
                StartupStep::AddSae { .. } => {
                    &&& refused.failure == Some(ExtractError::AddSae(cause))
                    &&& failed.failure is None
                },
                StartupStep::WatchKeyDir { .. } => {
                    &&& refused.failure is None
                    &&& failed.failure == Some(error)
                },
                StartupStep::AddKmeNetInfo { .. } => {
                    &&& refused.failure == Some(ExtractError::AddKmeNetInfo(cause))
                    &&& failed.failure is None
                },
            }
        }),
{
}

/// A step that succeeds is counted, and the next one is asked for; once all are done or one
/// failed, nothing is asked for and no reply changes anything.
pub proof fn law_startup_progress(state: StartupState<'_>, reply: StepReply)
    requires
        0 <= state.done <= state.steps.len(),
    ensures
        state.failure is None && state.done < state.steps.len() ==> {
            &&& next_step(state) == Some(state.steps[state.done])
            &&& startup_replied(state, StepReply::Done) == (StartupState {
                done: state.done + 1,
                ..state
            })
        },
        state.failure is Some || state.done == state.steps.len() ==> {
            &&& next_step(state) is None
            &&& startup_replied(state, reply) == state
        },
{
}

} // verus!
