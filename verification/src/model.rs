use vstd::prelude::*;

use crate::config::RunConfig;
use crate::plan::Command;
use crate::plan::plan_spec;
use crate::plan::seed_cmd;
use crate::words::bytes_of;
use crate::words::words_of;

verus! {

/// Mathematical contents of the two device buffers, as 32-bit words.
#[verifier::ext_equal]
pub struct BufferContents {
    pub staging: Seq<u32>,
    pub storage: Seq<u32>,
}

/// What one command does to the buffers. The shader's effect on the storage
/// buffer is left open here, so a dispatch takes it as an argument: `effect`
/// is whatever contents the pass leaves behind.
pub open spec fn step_model(m: BufferContents, c: Command, effect: Seq<u32>) -> BufferContents {
    match c {
        Command::SeedCopy { .. } => BufferContents { staging: m.staging, storage: m.staging },
        Command::Dispatch { .. } => BufferContents { staging: m.staging, storage: effect },
        Command::SyncWait => m,
        Command::ReadbackCopy { .. } => BufferContents { staging: m.storage, storage: m.storage },
    }
}

/// Folds a command sequence over the buffers; `effects[i]` is the storage
/// contents that command `i` leaves behind if it is a dispatch.
pub open spec fn run_model(m: BufferContents, cmds: Seq<Command>, effects: Seq<Seq<u32>>) -> BufferContents
    decreases cmds.len(),
{
    if cmds.len() == 0 {
        m
    } else {
        run_model(step_model(m, cmds[0], effects[0]), cmds.drop_first(), effects.drop_first())
    }
}

/// Every effect holds exactly `n` elements: a shader pass writes within the
/// storage buffer, it never resizes it.
pub open spec fn effects_sized(effects: Seq<Seq<u32>>, n: int) -> bool {
    forall|i: int| 0 <= i < effects.len() ==> (#[trigger] effects[i]).len() == n
}

/// Seed round trip: the plan's first command is the seed copy, and stepping
/// it leaves the storage buffer equal to the staging buffer — word for word,
/// hence byte for byte — before any dispatch has touched it.
pub proof fn lemma_seed_copy_identity(cfg: RunConfig, m: BufferContents, effect: Seq<u32>)
    requires
        cfg.valid(),
    ensures
        plan_spec(cfg)[0] == seed_cmd(cfg),
        step_model(m, plan_spec(cfg)[0], effect).storage =~= step_model(m, plan_spec(cfg)[0], effect).staging,
        step_model(m, plan_spec(cfg)[0], effect).staging =~= m.staging,
        bytes_of(step_model(m, plan_spec(cfg)[0], effect).storage) =~= bytes_of(
            step_model(m, plan_spec(cfg)[0], effect).staging,
        ),
{
    assert(plan_spec(cfg)[0] == seed_cmd(cfg));
}

/// Running any command sequence with well-sized effects keeps both buffers at
/// `n` elements.
pub proof fn lemma_run_preserves_len(
    m: BufferContents,
    cmds: Seq<Command>,
    effects: Seq<Seq<u32>>,
    n: int,
)
    requires
        m.staging.len() == n,
        m.storage.len() == n,
        effects_sized(effects, n),
        effects.len() >= cmds.len(),
    ensures
        run_model(m, cmds, effects).staging.len() == n,
        run_model(m, cmds, effects).storage.len() == n,
    decreases cmds.len(),
{
    if cmds.len() > 0 {
        let m1 = step_model(m, cmds[0], effects[0]);
        assert(effects_sized(effects.drop_first(), n)) by {
            assert forall|i: int| 0 <= i < effects.drop_first().len() implies (#[trigger] effects.drop_first()[i]).len() == n by {
                assert(effects.drop_first()[i] == effects[i + 1]);
            }
        }
        lemma_run_preserves_len(m1, cmds.drop_first(), effects.drop_first(), n);
    }
}

/// After a fault-free run of the whole plan, the staging buffer still holds
/// exactly `entries` words, so mapping its full range reads `entries * 4`
/// bytes — whatever the dispatches computed.
pub proof fn lemma_readback_byte_count(cfg: RunConfig, m: BufferContents, effects: Seq<Seq<u32>>)
    requires
        cfg.valid(),
        m.staging.len() == cfg.entries,
        m.storage.len() == cfg.entries,
        effects_sized(effects, cfg.entries as int),
        effects.len() >= plan_spec(cfg).len(),
    ensures
        run_model(m, plan_spec(cfg), effects).staging.len() == cfg.entries,
        bytes_of(run_model(m, plan_spec(cfg), effects).staging).len() == cfg.entries * 4,
        words_of(bytes_of(run_model(m, plan_spec(cfg), effects).staging)).len() * 4 == cfg.entries * 4,
{
    lemma_run_preserves_len(m, plan_spec(cfg), effects, cfg.entries as int);
    assert((cfg.entries * 4) / 4 == cfg.entries);
}

/// Idempotence of the report: two fault-free runs with the same
/// configuration read back the same byte count — `entries * 4` — whatever
/// each run's dispatches computed and whatever the storage buffer held
/// before each seed upload.
pub proof fn lemma_report_idempotent(
    cfg: RunConfig,
    m1: BufferContents,
    m2: BufferContents,
    effects1: Seq<Seq<u32>>,
    effects2: Seq<Seq<u32>>,
)
    requires
        cfg.valid(),
        m1.staging.len() == cfg.entries,
        m1.storage.len() == cfg.entries,
        m2.staging.len() == cfg.entries,
        m2.storage.len() == cfg.entries,
        effects_sized(effects1, cfg.entries as int),
        effects_sized(effects2, cfg.entries as int),
        effects1.len() >= plan_spec(cfg).len(),
        effects2.len() >= plan_spec(cfg).len(),
    ensures
        bytes_of(run_model(m1, plan_spec(cfg), effects1).staging).len() == bytes_of(
            run_model(m2, plan_spec(cfg), effects2).staging,
        ).len(),
        bytes_of(run_model(m1, plan_spec(cfg), effects1).staging).len() == cfg.entries * 4,
{
    lemma_readback_byte_count(cfg, m1, effects1);
    lemma_readback_byte_count(cfg, m2, effects2);
}

/// The views of a vector of effect vectors, one sequence per effect.
pub open spec fn effects_view(e: Seq<Vec<u32>>) -> Seq<Seq<u32>> {
    Seq::new(e.len(), |i: int| e[i]@)
}

/// Executable model of the two buffers, for exercising a plan end to end
/// without a device.
pub struct ModelBuffers {
    pub staging: Vec<u32>,
    pub storage: Vec<u32>,
}

impl View for ModelBuffers {
    type V = BufferContents;

    open spec fn view(&self) -> BufferContents {
        BufferContents { staging: self.staging@, storage: self.storage@ }
    }
}

/// Copies a word vector element by element.
fn copy_words_vec(src: &Vec<u32>) -> (r: Vec<u32>)
    ensures
        r@ == src@,
{
    let mut r: Vec<u32> = Vec::new();
    let mut k: usize = 0;
    while k < src.len()
        invariant
            k <= src@.len(),
            r@ == src@.take(k as int),
        decreases src@.len() - k,
    {
        r.push(src[k]);
        proof {
            assert(r@ =~= src@.take(k as int + 1));
        }
        k = k + 1;
    }
    proof {
        assert(r@ =~= src@);
    }
    r
}

impl ModelBuffers {
    /// Applies one command to the model; `effect` is the storage contents a
    /// dispatch leaves behind.
    pub fn apply_command(&mut self, cmd: &Command, effect: &Vec<u32>)
        requires
            cmd is Dispatch ==> effect@.len() == old(self).storage@.len(),
        ensures
            final(self)@.staging == step_model(old(self)@, *cmd, effect@).staging,
            final(self)@.storage == step_model(old(self)@, *cmd, effect@).storage,
    {
        match cmd {
            Command::SeedCopy { .. } => {
                self.storage = copy_words_vec(&self.staging);
            },
            Command::Dispatch { .. } => {
                self.storage = copy_words_vec(effect);
            },
            Command::SyncWait => {},
            Command::ReadbackCopy { .. } => {
                self.staging = copy_words_vec(&self.storage);
            },
        }
    }

    /// Runs a whole plan on the model; `effects[i]` is the storage contents
    /// command `i` leaves behind if it is a dispatch.
    pub fn run_plan(&mut self, plan: &Vec<Command>, effects: &Vec<Vec<u32>>)
        requires
            old(self).staging@.len() == old(self).storage@.len(),
            effects@.len() >= plan@.len(),
            forall|i: int|
                0 <= i < effects@.len() ==> (#[trigger] effects@[i])@.len() == old(self).storage@.len(),
        ensures
            final(self)@.staging == run_model(old(self)@, plan@, effects_view(effects@)).staging,
            final(self)@.storage == run_model(old(self)@, plan@, effects_view(effects@)).storage,
    {
        let ghost n = old(self).storage@.len() as int;
        let ghost evs = effects_view(effects@);
        proof {
            assert(plan@.skip(0) =~= plan@);
            assert(evs.skip(0) =~= evs);
        }
        let mut k: usize = 0;
        while k < plan.len()
            invariant
                k <= plan@.len(),
                effects@.len() >= plan@.len(),
                self@.staging.len() == n,
                self@.storage.len() == n,
                forall|i: int|
                    0 <= i < effects@.len() ==> (#[trigger] effects@[i])@.len() == n,
                evs == effects_view(effects@),
                run_model(old(self)@, plan@, evs) == run_model(
                    self@,
                    plan@.skip(k as int),
                    evs.skip(k as int),
                ),
            decreases plan@.len() - k,
        {
            let ghost pre = self@;
            let cmd = plan[k];
            self.apply_command(&cmd, &effects[k]);
            proof {
                assert(evs[k as int] == effects@[k as int]@);
                assert(self@ =~= step_model(pre, cmd, effects@[k as int]@));
                assert(plan@.skip(k as int)[0] == plan@[k as int]);
                assert(evs.skip(k as int)[0] == evs[k as int]);
                assert(plan@.skip(k as int).drop_first() =~= plan@.skip(k as int + 1));
                assert(evs.skip(k as int).drop_first() =~= evs.skip(k as int + 1));
                assert(run_model(pre, plan@.skip(k as int), evs.skip(k as int)) == run_model(
                    self@,
                    plan@.skip(k as int + 1),
                    evs.skip(k as int + 1),
                ));
            }
            k = k + 1;
        }
        proof {
            assert(plan@.skip(plan@.len() as int) =~= Seq::<Command>::empty());
        }
    }
}

} // verus!
