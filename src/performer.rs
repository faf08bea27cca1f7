use vstd::prelude::*;
use vstd::string::StringExecFns;
use crate::catalog::ChooserTable;
use crate::melody::Melody;
use crate::random::{RandomSource, advanced, roll_seq};
use crate::transform::{Transformation, ornament, ornamented, transform, transformed, accepts_variation, min_nat};
use crate::melody::{pitch_changes, total_duration};

verus! {

/// The catalog of variation strategies offered to the performer.
pub type AiTable = ChooserTable<Transformation>;

/// The strategies in the order a control surface lists them; the first,
/// which keeps the generated voice silent, is selected.
pub fn make_ai_table() -> (r: AiTable)
    ensures
        r.wf(),
        r.current_spec() == 0,
        r.choices_spec() == seq![
            Transformation::Bypass,
            Transformation::EmphasisAnchored,
            Transformation::FigureReplacement,
            Transformation::Whimsical,
        ],
        r.names_spec().len() == 4,
        r.names_spec()[0]@ == "Bypass"@,
        r.names_spec()[1]@ == "Emphasis-Anchored Choice"@,
        r.names_spec()[2]@ == "Consistent Figure Replacement"@,
        r.names_spec()[3]@ == "Whimsical Variation"@,
{
    let names: Vec<String> = vec![
        String::from_str("Bypass"),
        String::from_str("Emphasis-Anchored Choice"),
        String::from_str("Consistent Figure Replacement"),
        String::from_str("Whimsical Variation"),
    ];
    let choices: Vec<Transformation> = vec![
        Transformation::Bypass,
        Transformation::EmphasisAnchored,
        Transformation::FigureReplacement,
        Transformation::Whimsical,
    ];
    assert(choices@ =~= seq![
        Transformation::Bypass,
        Transformation::EmphasisAnchored,
        Transformation::FigureReplacement,
        Transformation::Whimsical,
    ]);
    ChooserTable::new(names, choices)
}

/// The variation a performer whose source is in state `state` makes of `s`:
/// the strategy draws one roll per event of `s`, the ornamentation one per
/// event of the strategy's result.
pub open spec fn variation_of(
    t: Transformation,
    s: Seq<crate::melody::MelodyEvent>,
    state: u64,
    p_random: u64,
    p_ornament: u64,
    gap: u64,
) -> Seq<crate::melody::MelodyEvent> {
    let raw = transformed(t, s, p_random, roll_seq(state, s.len()));
    ornamented(raw, roll_seq(advanced(state, s.len()), raw.len()), gap, p_ornament)
}

/// Makes variations of finished phrases.
pub struct Performer {
    pub rng: RandomSource,
}

impl Performer {
    pub fn new(seed: u64) -> (r: Performer)
        ensures
            r.rng.state == if seed == 0 {
                1
            } else {
                seed
            },
    {
        Performer { rng: RandomSource::new(seed) }
    }

    /// Applies `choice`, the strategy selected in the catalog, then ornaments
    /// the result.
    /// The input phrase is left as it is.
    pub fn create_variation(
        &mut self,
        melody: &Melody,
        choice: Transformation,
        p_random: u64,
        p_ornament: u64,
        gap: u64,
    ) -> (r: Melody)
        ensures
            r@ == variation_of(
                choice,
                melody@,
                old(self).rng.state,
                p_random,
                p_ornament,
                gap,
            ),
            choice == Transformation::Bypass ==> r@.len() == 0,
            final(self).rng == {
                let n = melody@.len();
                let raw = transformed(choice, melody@, p_random, roll_seq(old(self).rng.state, n));
                RandomSource { state: advanced(advanced(old(self).rng.state, n), raw.len()) }
            },
    {
        let rolls = self.rng.rolls(melody.len());
        let raw = transform(choice, melody, p_random, &rolls);
        let rolls2 = self.rng.rolls(raw.len());
        let r = ornament(&raw, p_ornament, gap, &rolls2);
        proof {
            if choice == Transformation::Bypass {
                assert(r@ == ornamented(Seq::empty(), rolls2@, gap, p_ornament));
            }
        }
        r
    }

    /// One turn of the variation stage: makes a variation of a finished
    /// phrase and hands it out only if it changes pitch at least
    /// `min_changes` times and lasts longer than `threshold` milliseconds.
    pub fn respond(
        &mut self,
        melody: &Melody,
        choice: Transformation,
        p_random: u64,
        p_ornament: u64,
        gap: u64,
        min_changes: usize,
        threshold: u64,
    ) -> (r: Option<Melody>)
        ensures
            ({
                let v = variation_of(
                    choice,
                    melody@,
                    old(self).rng.state,
                    p_random,
                    p_ornament,
                    gap,
                );
                &&& r is Some <==> (pitch_changes(v) >= min_changes && min_nat(
                    total_duration(v),
                    u64::MAX as nat,
                ) > threshold)
                &&& r matches Some(m) ==> m@ == v
            }),
            final(self).rng == {
                let n = melody@.len();
                let raw = transformed(choice, melody@, p_random, roll_seq(old(self).rng.state, n));
                RandomSource { state: advanced(advanced(old(self).rng.state, n), raw.len()) }
            },
    {
        let v = self.create_variation(melody, choice, p_random, p_ornament, gap);
        if accepts_variation(&v, min_changes, threshold) {
            Some(v)
        } else {
            None
        }
    }
}

} // verus!
