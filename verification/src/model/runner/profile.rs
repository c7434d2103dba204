//! Measuring what a token costs: the same work as that of a decoding pass, cut into parts
//! that are run and timed one by one.

use vstd::prelude::*;
use vstd::string::*;

use crate::model;
use crate::model::command;
use crate::model::command::{u32_bytes, BufferId, Dispatch, DispatchView, Owner};
use crate::model::dispatch::{push_embed, push_norm, push_qmv};
use crate::model::runner;
use crate::model::runner::{all_stages, QwenRunner, RunnerView};
use crate::model::{layer_kind, LayerKind};

verus! {

/// A part of a pass.
#[derive(Debug, Clone, Copy, PartialEq, Eq, Structural)]
pub enum Section {
    Embedding,
    /// The layer of this index, and its kind.
    Layer(usize, LayerKind),
    /// The final norm and the language head.
    Head,
}

/// A part of a pass, and what is run for it.
#[derive(Debug)]
pub struct ProfilePart {
    pub section: Section,
    pub plan: Vec<Dispatch>,
}

/// A pass in parts: the bytes that go to the front of the scratch memory, and the parts.
#[derive(Debug)]
pub struct ProfilePass {
    pub input: Vec<u8>,
    pub parts: Vec<ProfilePart>,
}

/// The `i`th part of a pass over one row.
pub open spec fn part(r: RunnerView, i: int) -> (Section, Seq<DispatchView>) {
    if i == 0 {
        (Section::Embedding, seq![runner::decode_embed(r, 1)])
    } else if i <= r.layers.len() {
        (
            Section::Layer((i - 1) as usize, model::kind_of(i - 1)),
            runner::decode_layer(r, r.layers[i - 1], 1, false, runner::every_stage()),
        )
    } else {
        (Section::Head, runner::decode_head(r, 1, runner::every_stage()))
    }
}

/// The parts of a pass over one row.
pub open spec fn parts(r: RunnerView) -> Seq<(Section, Seq<DispatchView>)> {
    Seq::new(r.layers.len() + 2, |i: int| part(r, i))
}

/// The parts as values.
pub open spec fn part_views(parts: Seq<ProfilePart>) -> Seq<(Section, Seq<DispatchView>)> {
    Seq::new(parts.len(), |i: int| (parts[i].section, command::plan_view(parts[i].plan@)))
}

/// What is run for the parts, one after the other.
pub open spec fn whole(parts: Seq<(Section, Seq<DispatchView>)>) -> Seq<DispatchView>
    decreases parts.len(),
{
    if parts.len() == 0 {
        Seq::empty()
    } else {
        whole(parts.drop_last()) + parts.last().1
    }
}

/// The parts, run one after the other, are the pass that is run when nothing is measured.
pub proof fn parts_make_the_pass(r: RunnerView)
    ensures
        whole(parts(r)) == runner::decode_plan(r, 1, false, runner::every_stage(), false),
{
    let n = r.layers.len() as int;
    let all = parts(r);
    first_parts(r, n);
    assert(all.drop_last() =~= all.take(n + 1));
    assert(whole(all) =~= runner::decode_plan(r, 1, false, runner::every_stage(), false));
}

/// The embedding and the first `n` layers.
proof fn first_parts(r: RunnerView, n: int)
    requires
        0 <= n <= r.layers.len(),
    ensures
        whole(parts(r).take(n + 1)) == seq![runner::decode_embed(r, 1)] + runner::decode_layers(
            r,
            n,
            1,
            false,
            runner::every_stage(),
        ),
    decreases n,
{
    let some = parts(r).take(n + 1);
    assert(some.last() == part(r, n));
    if n == 0 {
        assert(some.drop_last() =~= Seq::empty());
        assert(whole(some.drop_last()) =~= Seq::empty());
    } else {
        first_parts(r, n - 1);
        assert(some.drop_last() =~= parts(r).take(n));
    }
    assert(whole(some) =~= seq![runner::decode_embed(r, 1)] + runner::decode_layers(
        r,
        n,
        1,
        false,
        runner::every_stage(),
    ));
}

/// Appends a part.
fn push_part(parts: &mut Vec<ProfilePart>, section: Section, plan: Vec<Dispatch>)
    ensures
        part_views(final(parts)@) == part_views(old(parts)@).push(
            (section, command::plan_view(plan@)),
        ),
{
    parts.push(ProfilePart { section, plan });
    assert(part_views(parts@) =~= part_views(old(parts)@).push(
        (section, command::plan_view(plan@)),
    ));
}

impl QwenRunner {
    /// Feeds a token in parts, which are to be run and timed one by one. This tells what costs
    /// how much, and not how fast the model is: it otherwise runs all of them at once.
    pub fn profile_token_m1_diagnostic(&mut self, token: u32) -> (pass: Result<
        ProfilePass,
        String,
    >)
        ensures
            match pass {
                Ok(pass) => {
                    &&& runner::token_error(old(self)@, token) is None
                    &&& pass.input@ == command::words_bytes(seq![token])
                    &&& part_views(pass.parts@) == parts(old(self)@)
                    &&& final(self)@ == (RunnerView {
                        position: old(self)@.position + 1,
                        ..old(self)@
                    })
                },
                Err(message) => runner::token_error(old(self)@, token) == Some(message@)
                    && final(self)@ == old(self)@,
            },
    {
        proof {
            use_type_invariant(&*self);
        }
        match self.check_token(token) {
            Ok(_) => {},
            Err(message) => {
                return Err(message);
            },
        }
        let stages = all_stages();
        let s = self.scratch_layout;
        let mut parts: Vec<ProfilePart> = Vec::new();
        let mut plan: Vec<Dispatch> = Vec::new();
        push_embed(&mut plan, BufferId::Scratch, s.token, &self.embed, s.hidden, 1);
        assert(command::plan_view(plan@) =~= seq![runner::decode_embed(self@, 1)]);
        push_part(&mut parts, Section::Embedding, plan);
        let mut i: usize = 0;
        assert(part_views(parts@) =~= self::parts(self@).take(1));
        while i < self.layers.len()
            invariant
                i <= self.layers@.len(),
                self.layers@ == self@.layers,
                self@.position < u32::MAX,
                stages == runner::every_stage(),
                *self == *old(self),
                part_views(parts@) == self::parts(self@).take(i + 1),
            decreases self.layers@.len() - i,
        {
            let mut plan: Vec<Dispatch> = Vec::new();
            self.push_decode_layer(&mut plan, i, 1, false, stages);
            assert(command::plan_view(plan@) =~= part(self@, i + 1).1);
            push_part(&mut parts, Section::Layer(i, layer_kind(i)), plan);
            i += 1;
            assert(part_views(parts@) =~= self::parts(self@).take(i + 1));
        }
        let mut plan: Vec<Dispatch> = Vec::new();
        push_norm(
            &mut plan,
            BufferId::Scratch,
            Owner::Target,
            s.hidden,
            self.final_norm,
            s.normalized,
            1,
        );
        push_qmv(
            &mut plan,
            BufferId::Scratch,
            Owner::Target,
            s.normalized,
            &self.head,
            s.logits,
            1,
        );
        assert(command::plan_view(plan@) =~= runner::decode_head(self@, 1, stages));
        push_part(&mut parts, Section::Head, plan);
        assert(part_views(parts@) =~= self::parts(self@));
        let tokens: Vec<u32> = vec![token];
        assert(tokens@ =~= seq![token]);
        let input = u32_bytes(&tokens);
        self.position = self.position + 1;
        Ok(ProfilePass { input, parts })
    }
}

// ---------------------------------------------------------------------------
// Times
// ---------------------------------------------------------------------------

/// How long a layer took, in nanoseconds of the clock on the wall.
#[derive(Debug, Clone, Copy, PartialEq, Eq, Structural)]
pub struct DiagnosticLayerTiming {
    pub layer: usize,
    pub kind: LayerKind,
    pub wall: u64,
}

/// How long the parts of a pass took, in nanoseconds of the clock on the wall. Every part
/// was waited for, so that the sum says little of how fast a token is otherwise.
#[derive(Debug)]
pub struct DiagnosticTokenProfile {
    pub embedding_wall: u64,
    pub layers: Vec<DiagnosticLayerTiming>,
    pub gdn_wall: u128,
    pub attention_wall: u128,
    pub final_norm_lm_head_wall: u64,
    pub cpu_readback_argmax_wall: u64,
    pub total_wall: u64,
}

/// The time of each layer, with its kind.
pub open spec fn timings(walls: Seq<u64>) -> Seq<DiagnosticLayerTiming> {
    Seq::new(
        walls.len(),
        |i: int|
            DiagnosticLayerTiming {
                layer: i as usize,
                kind: model::kind_of(i),
                wall: walls[i],
            },
    )
}

/// How long the layers of a kind took together.
pub open spec fn time_of(kind: LayerKind, timings: Seq<DiagnosticLayerTiming>) -> int
    decreases timings.len(),
{
    if timings.len() == 0 {
        0
    } else {
        let others = time_of(kind, timings.drop_last());
        if timings.last().kind == kind {
            others + timings.last().wall
        } else {
            others
        }
    }
}

/// All times together.
pub open spec fn time_of_all(walls: Seq<u64>) -> int
    decreases walls.len(),
{
    if walls.len() == 0 {
        0
    } else {
        time_of_all(walls.drop_last()) + walls.last()
    }
}

/// Every layer's time counts for one of the two kinds.
pub proof fn kinds_share_the_time(walls: Seq<u64>)
    ensures
        time_of(LayerKind::Gdn, timings(walls)) + time_of(LayerKind::Attention, timings(walls))
            == time_of_all(walls),
    decreases walls.len(),
{
    if walls.len() > 0 {
        kinds_share_the_time(walls.drop_last());
        assert(timings(walls).drop_last() =~= timings(walls.drop_last()));
    }
}

/// The profile of a token of whose parts the times are known: `walls` are those of the
/// layers, in order.
pub fn token_profile(
    embedding_wall: u64,
    walls: &[u64],
    final_norm_lm_head_wall: u64,
    cpu_readback_argmax_wall: u64,
    total_wall: u64,
) -> (profile: DiagnosticTokenProfile)
    ensures
        profile.layers@ == timings(walls@),
        profile.gdn_wall == time_of(LayerKind::Gdn, timings(walls@)),
        profile.attention_wall == time_of(LayerKind::Attention, timings(walls@)),
        profile.embedding_wall == embedding_wall,
        profile.final_norm_lm_head_wall == final_norm_lm_head_wall,
        profile.cpu_readback_argmax_wall == cpu_readback_argmax_wall,
        profile.total_wall == total_wall,
{
    let mut layers: Vec<DiagnosticLayerTiming> = Vec::new();
    let mut gdn_wall: u128 = 0;
    let mut attention_wall: u128 = 0;
    let mut i: usize = 0;
    while i < walls.len()
        invariant
            i <= walls@.len(),
            layers@ == timings(walls@).take(i as int),
            gdn_wall == time_of(LayerKind::Gdn, layers@),
            attention_wall == time_of(LayerKind::Attention, layers@),
            gdn_wall + attention_wall <= i * u64::MAX,
        decreases walls@.len() - i,
    {
        let kind = layer_kind(i);
        let wall: u64 = walls[i];
        let ghost before = layers@;
        assert(i * u64::MAX + u64::MAX == (i + 1) * u64::MAX) by (nonlinear_arith);
        assert(i * u64::MAX <= u64::MAX * u64::MAX) by (nonlinear_arith)
            requires
                i <= u64::MAX,
        ;
        match kind {
            LayerKind::Gdn => {
                gdn_wall = gdn_wall + wall as u128;
            },
            LayerKind::Attention => {
                attention_wall = attention_wall + wall as u128;
            },
        }
        layers.push(DiagnosticLayerTiming { layer: i, kind, wall });
        i += 1;
        assert(layers@.drop_last() =~= before);
        assert(layers@ =~= timings(walls@).take(i as int));
    }
    assert(timings(walls@).take(i as int) =~= timings(walls@));
    DiagnosticTokenProfile {
        embedding_wall,
        layers,
        gdn_wall,
        attention_wall,
        final_norm_lm_head_wall,
        cpu_readback_argmax_wall,
        total_wall,
    }
}

} // verus!
