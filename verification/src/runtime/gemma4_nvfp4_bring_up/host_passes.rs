//! Passes of one token whose values go through the host between programs: the
//! programs in order, what each of them gets, and what is carried on of its
//! readings.

use crate::runtime::error::{cuda_err, RuntimeError};
use crate::runtime::gemma4_nvfp4_bring_up::drivers::{dump_order, DumpStage};
use crate::runtime::gemma4_nvfp4_bring_up::final_token::in_vocabulary;
use crate::runtime::gemma4_nvfp4_bring_up::kv_state::Gemma4Nvfp4KvState;
use crate::runtime::gemma4_nvfp4_bring_up::model::Gemma4Nvfp4Bringup;
use crate::runtime::step::{Program, ProgramView};
use crate::weight_bytes::{
    bytes_to_wide_words, bytes_to_words, law_words_round_trip, wide_words_of, words_of,
    words_to_bytes,
};
use vstd::prelude::*;

verus! {

/// What a pass holds between two programs, in bf16.
#[derive(Debug)]
pub struct Carried {
    /// Output of the attention.
    pub attn: Vec<u16>,
    pub residual: Vec<u16>,
}

/// What a [`Carried`] stands for.
pub struct CarriedView {
    pub attn: Seq<u16>,
    pub residual: Seq<u16>,
}

impl View for Carried {
    type V = CarriedView;

    open spec fn view(&self) -> CarriedView {
        CarriedView { attn: self.attn@, residual: self.residual@ }
    }
}

/// Host arguments of a program.
#[derive(Clone, Copy, Debug, PartialEq, Eq, Structural)]
pub enum Takes {
    Nothing,
    Residual,
    AttnAndResidual,
}

/// The host arguments of a program, in order.
pub open spec fn taken(takes: Takes, c: CarriedView) -> Seq<Seq<u16>> {
    match takes {
        Takes::Nothing => Seq::empty(),
        Takes::Residual => seq![c.residual],
        Takes::AttnAndResidual => seq![c.attn, c.residual],
    }
}

fn half_bytes(xs: &Vec<u16>) -> (r: Vec<u8>)
    requires
        2 * xs@.len() <= usize::MAX,
    ensures
        r@.len() == 2 * xs@.len(),
        words_of(r@) == xs@,
{
    let r = words_to_bytes(xs.as_slice());
    proof {
        law_words_round_trip(xs@, r@);
    }
    r
}

impl Carried {
    /// A pass holds nothing at first.
    pub fn nothing() -> (r: Carried)
        ensures
            r@ == (CarriedView { attn: Seq::empty(), residual: Seq::empty() }),
    {
        Carried { attn: Vec::new(), residual: Vec::new() }
    }

    /// The host arguments of a program as little-endian bytes.
    pub fn inputs(&self, takes: Takes) -> (r: Vec<Vec<u8>>)
        requires
            2 * self.attn@.len() <= usize::MAX,
            2 * self.residual@.len() <= usize::MAX,
        ensures
            ({
                let words = taken(takes, self@);
                &&& r@.len() == words.len()
                &&& forall|i: int|
                    0 <= i < words.len() ==> #[trigger] words_of(r@[i]@) == words[i] && r@[i]@.len()
                        == 2 * words[i].len()
            }),
    {
        match takes {
            Takes::Nothing => Vec::new(),
            Takes::Residual => vec![half_bytes(&self.residual)],
            Takes::AttnAndResidual => vec![half_bytes(&self.attn), half_bytes(&self.residual)],
        }
    }
}

/// What the program of a dump's stage gets.
pub open spec fn dump_takes_spec(stage: DumpStage) -> Takes {
    match stage {
        DumpStage::Embed => Takes::Nothing,
        DumpStage::AttnOut(_) => Takes::Residual,
        DumpStage::PostAttn(_) => Takes::AttnAndResidual,
        DumpStage::PostMlp(_) => Takes::Residual,
    }
}

/// What the program of a dump's stage gets.
pub fn dump_takes(stage: DumpStage) -> (r: Takes)
    ensures
        r == dump_takes_spec(stage),
{
    match stage {
        DumpStage::Embed => Takes::Nothing,
        DumpStage::AttnOut(_) => Takes::Residual,
        DumpStage::PostAttn(_) => Takes::AttnAndResidual,
        DumpStage::PostMlp(_) => Takes::Residual,
    }
}

/// Which reading a dump's stage keeps and carries on: its program's last.
pub open spec fn dump_reading_spec(stage: DumpStage) -> usize {
    match stage {
        DumpStage::PostMlp(_) => 2,
        _ => 0,
    }
}

/// Which reading a dump's stage keeps and carries on: its program's last.
pub fn dump_reading(stage: DumpStage) -> (r: usize)
    ensures
        r == dump_reading_spec(stage),
{
    match stage {
        DumpStage::PostMlp(_) => 2,
        _ => 0,
    }
}

/// What a dump holds after a stage: the attention gives its output, all else
/// a new residual.
pub open spec fn after_dump(stage: DumpStage, reading: Seq<u8>, c: CarriedView) -> CarriedView {
    match stage {
        DumpStage::AttnOut(_) => CarriedView { attn: words_of(reading), ..c },
        _ => CarriedView { residual: words_of(reading), ..c },
    }
}

/// Carries on what a stage of a dump read.
pub fn carry_dump(stage: DumpStage, reading: &[u8], c: &mut Carried)
    ensures
        final(c)@ == after_dump(stage, reading@, old(c)@),
{
    match stage {
        DumpStage::AttnOut(_) => {
            c.attn = bytes_to_words(reading);
        },
        _ => {
            c.residual = bytes_to_words(reading);
        },
    }
}

/// What a dump holds before its stage `k`, where stage `i` read
/// `readings[i]`.
pub open spec fn dump_held(
    stages: Seq<DumpStage>,
    readings: Seq<Seq<u8>>,
    k: nat,
) -> CarriedView
    decreases k,
{
    if k == 0 {
        CarriedView { attn: Seq::empty(), residual: Seq::empty() }
    } else {
        after_dump(
            stages[k - 1],
            readings[k - 1],
            dump_held(stages, readings, (k - 1) as nat),
        )
    }
}

proof fn lemma_dump_order(n: nat, l: int)
    requires
        0 <= l < n,
        n <= usize::MAX,
    ensures
        dump_order(n).len() == 3 * n + 1,
        dump_order(n)[0] == DumpStage::Embed,
        dump_order(n)[3 * l + 1] == DumpStage::AttnOut(l as usize),
        dump_order(n)[3 * l + 2] == DumpStage::PostAttn(l as usize),
        dump_order(n)[3 * l + 3] == DumpStage::PostMlp(l as usize),
    decreases n,
{
    if n == 1 {
        reveal_with_fuel(dump_order, 2);
    } else {
        lemma_dump_order(
            (n - 1) as nat,
            if l < n - 1 {
                l
            } else {
                0
            },
        );
    }
}

proof fn lemma_dump_residual(n: nat, readings: Seq<Seq<u8>>, l: int)
    requires
        0 <= l <= n,
        n <= usize::MAX,
    ensures
        dump_held(dump_order(n), readings, (3 * l + 1) as nat).residual == words_of(
            readings[3 * l],
        ),
{
    if l == 0 {
        if n > 0 {
            lemma_dump_order(n, 0);
        }
        reveal_with_fuel(dump_held, 2);
    } else {
        lemma_dump_order(n, l - 1);
        assert(3 * (l - 1) + 3 == 3 * l);
    }
}

/// A dump hands the values of each layer on as the pass on the device does:
/// the attention gets the residual that the layer before it left, the output
/// projection gets the attention's output and that same residual, the MLP gets
/// the projection's, and the head gets the last layer's.
pub proof fn law_dump_hands_on(layers: usize, readings: Seq<Seq<u8>>, l: usize)
    requires
        l < layers,
        readings.len() == 3 * layers + 1,
    ensures
        ({
            let s = dump_order(layers as nat);
            let k = 3 * l;
            &&& s[k + 1] == DumpStage::AttnOut(l)
            &&& taken(dump_takes_spec(s[k + 1]), dump_held(s, readings, (k + 1) as nat)) == seq![
                words_of(readings[k]),
            ]
            &&& s[k + 2] == DumpStage::PostAttn(l)
            &&& taken(dump_takes_spec(s[k + 2]), dump_held(s, readings, (k + 2) as nat)) == seq![
                words_of(readings[k + 1]),
                words_of(readings[k]),
            ]
            &&& s[k + 3] == DumpStage::PostMlp(l)
            &&& taken(dump_takes_spec(s[k + 3]), dump_held(s, readings, (k + 3) as nat)) == seq![
                words_of(readings[k + 2]),
            ]
            &&& dump_held(s, readings, s.len()).residual == words_of(readings[3 * layers])
        }),
{
    let s = dump_order(layers as nat);
    lemma_dump_order(layers as nat, l as int);
    lemma_dump_residual(layers as nat, readings, l as int);
    lemma_dump_residual(layers as nat, readings, layers as int);
    let k = 3 * l;
    assert(dump_held(s, readings, (k + 2) as nat) == after_dump(
        s[k + 1],
        readings[k + 1],
        dump_held(s, readings, (k + 1) as nat),
    ));
    assert(dump_held(s, readings, (k + 3) as nat) == after_dump(
        s[k + 2],
        readings[k + 2],
        dump_held(s, readings, (k + 2) as nat),
    ));
}

/// A program of the first layer alone at position zero.
#[derive(Clone, Copy, Debug, PartialEq, Eq, Structural)]
pub enum ZeroStage {
    /// The first projections, whose values are the attention.
    Values,
    /// The embedding once more.
    Embed,
    PostAttn,
    PostMlp,
    /// The head on the first layer's residual.
    Head,
}

/// The programs of the first layer alone at position zero, in order.
pub open spec fn zero_order() -> Seq<ZeroStage> {
    seq![
        ZeroStage::Values,
        ZeroStage::Embed,
        ZeroStage::PostAttn,
        ZeroStage::PostMlp,
        ZeroStage::Head,
    ]
}

/// The programs of the first layer alone at position zero, in order.
pub fn zero_stages() -> (r: Vec<ZeroStage>)
    ensures
        r@ == zero_order(),
{
    let r: Vec<ZeroStage> =
        vec![
        ZeroStage::Values,
        ZeroStage::Embed,
        ZeroStage::PostAttn,
        ZeroStage::PostMlp,
        ZeroStage::Head,
    ];
    assert(r@ =~= zero_order());
    r
}

/// What the program of such a stage gets.
pub open spec fn zero_takes_spec(stage: ZeroStage) -> Takes {
    match stage {
        ZeroStage::Values => Takes::Nothing,
        ZeroStage::Embed => Takes::Nothing,
        ZeroStage::PostAttn => Takes::AttnAndResidual,
        ZeroStage::PostMlp => Takes::Residual,
        ZeroStage::Head => Takes::Residual,
    }
}

/// What the program of such a stage gets.
pub fn zero_takes(stage: ZeroStage) -> (r: Takes)
    ensures
        r == zero_takes_spec(stage),
{
    match stage {
        ZeroStage::Values => Takes::Nothing,
        ZeroStage::Embed => Takes::Nothing,
        ZeroStage::PostAttn => Takes::AttnAndResidual,
        ZeroStage::PostMlp => Takes::Residual,
        ZeroStage::Head => Takes::Residual,
    }
}

/// Which reading of such a stage's program is carried on.
pub open spec fn zero_reading_spec(stage: ZeroStage) -> usize {
    match stage {
        ZeroStage::Values => 2,
        ZeroStage::Embed => 0,
        ZeroStage::PostAttn => 1,
        ZeroStage::PostMlp => 2,
        ZeroStage::Head => 0,
    }
}

/// Which reading of such a stage's program is carried on.
pub fn zero_reading(stage: ZeroStage) -> (r: usize)
    ensures
        r == zero_reading_spec(stage),
{
    match stage {
        ZeroStage::Values => 2,
        ZeroStage::Embed => 0,
        ZeroStage::PostAttn => 1,
        ZeroStage::PostMlp => 2,
        ZeroStage::Head => 0,
    }
}

impl Gemma4Nvfp4Bringup {
    /// The program of a dump's stage.
    pub open spec fn dump_stage_program(
        &self,
        stage: DumpStage,
        token: u32,
        position: u32,
        kv: &Gemma4Nvfp4KvState,
        policies: (i32, i32),
        c: CarriedView,
    ) -> ProgramView {
        let attn = c.attn.len() as usize;
        let residual = c.residual.len() as usize;
        match stage {
            DumpStage::Embed => self.embed_one(token),
            DumpStage::AttnOut(l) => self.host_attn(l as int, residual, position, kv, policies),
            DumpStage::PostAttn(l) => self.host_post_attn(l, attn, residual),
            DumpStage::PostMlp(l) => self.host_mlp(l, residual),
        }
    }

    /// The program of a dump's stage, on what the stages before it left.
    pub fn dump_program(
        &self,
        stage: DumpStage,
        token_id: u32,
        position: u32,
        kv: &Gemma4Nvfp4KvState,
        policies: (i32, i32),
        carried: &Carried,
    ) -> (r: Program)
        requires
            self.fits(1),
            kv.covers(self.arch.num_hidden_layers as nat),
        ensures
            r@ == self.dump_stage_program(stage, token_id, position, kv, policies, carried@),
    {
        let attn: usize = carried.attn.len();
        let residual: usize = carried.residual.len();
        match stage {
            DumpStage::Embed => self.embed_one_token_bf16(token_id),
            DumpStage::AttnOut(l) => self.forward_layer_attn_from_residual(
                l,
                residual,
                position,
                kv,
                policies,
            ),
            DumpStage::PostAttn(l) => self.forward_layer_post_attn(l, attn, residual),
            DumpStage::PostMlp(l) => self.forward_layer_post_attn_mlp(l, residual),
        }
    }

    /// The program of a stage of the first layer alone at position zero.
    pub open spec fn zero_stage_program(
        &self,
        stage: ZeroStage,
        token: u32,
        c: CarriedView,
    ) -> ProgramView {
        let attn = c.attn.len() as usize;
        let residual = c.residual.len() as usize;
        match stage {
            ZeroStage::Values => self.qk_rope(token, 0),
            ZeroStage::Embed => self.zero_residual(token),
            ZeroStage::PostAttn => self.first_post_attn(attn, residual),
            ZeroStage::PostMlp => self.first_mlp(residual),
            ZeroStage::Head => self.final_to_token(residual),
        }
    }

    /// The program of a stage of the first layer alone at position zero, on
    /// what the stages before it left.
    pub fn zero_program(&self, stage: ZeroStage, token_id: u32, carried: &Carried) -> (r: Program)
        requires
            self.probe_fits(),
        ensures
            r@ == self.zero_stage_program(stage, token_id, carried@),
    {
        let attn: usize = carried.attn.len();
        let residual: usize = carried.residual.len();
        match stage {
            ZeroStage::Values => self.forward_layer0_position_zero_to_token(token_id),
            ZeroStage::Embed => self.position_zero_residual(token_id),
            ZeroStage::PostAttn => self.forward_layer0_post_attn(attn, residual),
            ZeroStage::PostMlp => self.forward_layer0_post_attn_mlp(residual),
            ZeroStage::Head => self.forward_final_to_token(residual),
        }
    }

    /// What is held after a stage at position zero, and the token after the
    /// last: the values give the attention, the head the token, all else a
    /// new residual.
    pub open spec fn after_zero(&self, stage: ZeroStage, reading: Seq<u8>, c: CarriedView) -> Result<
        (CarriedView, Option<u32>),
        RuntimeError,
    > {
        match stage {
            ZeroStage::Values => match self.zero_attn(wide_words_of(reading)) {
                Ok(attn) => Ok((CarriedView { attn, ..c }, None)),
                Err(e) => Err(e),
            },
            ZeroStage::Head => {
                let id = wide_words_of(reading)[0] as i32;
                if in_vocabulary(id, self.arch.vocab_size as u32) {
                    Ok((c, Some(id as u32)))
                } else {
                    Err(
                        cuda_err(
                            "forward_final_to_token: argmax produced out-of-range token id",
                        ),
                    )
                }
            },
            _ => Ok((CarriedView { residual: words_of(reading), ..c }, None)),
        }
    }

    /// What is held at position zero before stage `k`, where stage `i` read
    /// `readings[i]` and none reported.
    pub open spec fn zero_held(&self, readings: Seq<Seq<u8>>, k: nat) -> CarriedView
        decreases k,
    {
        if k == 0 {
            CarriedView { attn: Seq::empty(), residual: Seq::empty() }
        } else {
            self.after_zero(
                zero_order()[k - 1],
                readings[k - 1],
                self.zero_held(readings, (k - 1) as nat),
            )->Ok_0.0
        }
    }

    /// At position zero the output projection gets the values of the first
    /// projections, shared out to the query heads, and the embedding; the MLP
    /// gets the projection's residual, the head the MLP's, and the token is
    /// the head's.
    pub proof fn law_zero_hands_on(&self, readings: Seq<Seq<u8>>)
        requires
            readings.len() == 5,
            readings[4].len() == 4,
            self.zero_attn(wide_words_of(readings[0])) is Ok,
        ensures
            zero_order()[2] == ZeroStage::PostAttn,
            taken(zero_takes_spec(zero_order()[2]), self.zero_held(readings, 2)) == seq![
                self.zero_attn(wide_words_of(readings[0]))->Ok_0,
                words_of(readings[1]),
            ],
            zero_order()[3] == ZeroStage::PostMlp,
            taken(zero_takes_spec(zero_order()[3]), self.zero_held(readings, 3)) == seq![
                words_of(readings[2]),
            ],
            zero_order()[4] == ZeroStage::Head,
            taken(zero_takes_spec(zero_order()[4]), self.zero_held(readings, 4)) == seq![
                words_of(readings[3]),
            ],
            self.after_zero(ZeroStage::Head, readings[4], self.zero_held(readings, 4)) matches Ok(
                (_, t),
            ) ==> t == Some(wide_words_of(readings[4])[0]),
    {
        reveal_with_fuel(Gemma4Nvfp4Bringup::zero_held, 5);
        let word: u32 = wide_words_of(readings[4])[0];
        assert(word as i32 as u32 == word) by (bit_vector);
    }

    /// Carries on what a stage at position zero read; the last gives the
    /// token. Where it reports, what was held stays.
    pub fn carry_zero(&self, stage: ZeroStage, reading: &[u8], c: &mut Carried) -> (r: Result<
        Option<u32>,
        RuntimeError,
    >)
        requires
            stage == ZeroStage::Values ==> self.zero_fits(),
            stage == ZeroStage::Head ==> reading@.len() >= 4,
        ensures
            match r {
                Ok(token) => self.after_zero(stage, reading@, old(c)@) == Ok::<
                    (CarriedView, Option<u32>),
                    RuntimeError,
                >((final(c)@, token)),
                Err(e) => {
                    &&& self.after_zero(stage, reading@, old(c)@) == Err::<
                        (CarriedView, Option<u32>),
                        RuntimeError,
                    >(e)
                    &&& final(c)@ == old(c)@
                },
            },
    {
        match stage {
            ZeroStage::Values => {
                let values = bytes_to_wide_words(reading);
                match self.position_zero_attn_out(values.as_slice()) {
                    Ok(attn) => {
                        c.attn = attn;
                        Ok(None)
                    },
                    Err(e) => Err(e),
                }
            },
            ZeroStage::Head => {
                let words = bytes_to_wide_words(reading);
                match self.final_token(words[0] as i32) {
                    Ok(token) => Ok(Some(token)),
                    Err(e) => Err(e),
                }
            },
            _ => {
                c.residual = bytes_to_words(reading);
                Ok(None)
            },
        }
    }
}

} // verus!
