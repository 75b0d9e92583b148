//! Hardforks, and which of them rules a block.

use vstd::prelude::*;

verus! {

/// The hardforks in the order of mainnet.
#[derive(Clone, Copy, Debug, PartialEq, Eq, Structural)]
pub enum BscHardfork {
    /// The chain from its genesis on.
    Frontier,
    /// Ramanujan.
    Ramanujan,
    /// Niels.
    Niels,
    /// Mirror sync.
    MirrorSync,
    /// Bruno.
    Bruno,
    /// Euler.
    Euler,
    /// Nano.
    Nano,
    /// Moran.
    Moran,
    /// Gibbs.
    Gibbs,
    /// Planck.
    Planck,
    /// Luban: votes.
    Luban,
    /// Plato: fast finality.
    Plato,
    /// Hertz.
    Hertz,
    /// Hertz fix.
    HertzFix,
    /// Kepler.
    Kepler,
    /// Feynman.
    Feynman,
    /// Feynman fix.
    FeynmanFix,
    /// Cancun: blobs.
    Cancun,
    /// Haber.
    Haber,
    /// Haber fix.
    HaberFix,
    /// Bohr.
    Bohr,
    /// Pascal.
    Pascal,
    /// Lorentz.
    Lorentz,
    /// Maxwell.
    Maxwell,
    /// Fermi.
    Fermi,
    /// Osaka.
    Osaka,
    /// Mendel.
    Mendel,
    /// Pasteur.
    Pasteur,
}

/// What activates a fork.
#[derive(Clone, Copy, Debug, PartialEq, Eq, Structural)]
pub enum ForkCondition {
    /// A block number.
    Block(u64),
    /// A total difficulty.
    Ttd,
    /// A time.
    Timestamp(u64),
    /// Nothing.
    Never,
}

impl ForkCondition {
    /// The block that activates the fork, where it is a block that does.
    pub fn activation_block(&self) -> (r: Option<u64>)
        ensures
            r == match *self {
                ForkCondition::Block(b) => Some(b),
                _ => None,
            },
    {
        match self {
            ForkCondition::Block(b) => Some(*b),
            _ => None,
        }
    }
}

/// A fork whose place among its neighbours differs from chain to chain.
#[derive(Clone, Copy, Debug, PartialEq, Eq, Structural)]
pub struct MovableFork {
    /// What activates it.
    pub condition: ForkCondition,
    /// Whether it is active at the block in question.
    pub active: bool,
}

impl MovableFork {
    /// How late the fork comes: by the block that activates it, before all others where no block
    /// does.
    pub open spec fn lateness(self) -> int {
        match self.condition {
            ForkCondition::Block(b) => b as int,
            _ => -1,
        }
    }
}

/// Which forks are active at a block.
#[derive(Clone, Copy, Debug, PartialEq, Eq, Structural)]
pub struct ActiveForks {
    /// Mendel.
    pub mendel: bool,
    /// Osaka.
    pub osaka: bool,
    /// Fermi.
    pub fermi: bool,
    /// Maxwell.
    pub maxwell: bool,
    /// Lorentz.
    pub lorentz: bool,
    /// Pascal.
    pub pascal: bool,
    /// Bohr.
    pub bohr: bool,
    /// Haber fix.
    pub haber_fix: bool,
    /// Haber.
    pub haber: bool,
    /// Cancun.
    pub cancun: bool,
    /// Feynman fix.
    pub feynman_fix: bool,
    /// Feynman.
    pub feynman: bool,
    /// Kepler.
    pub kepler: bool,
    /// Hertz fix.
    pub hertz_fix: bool,
    /// Hertz.
    pub hertz: bool,
    /// Plato.
    pub plato: bool,
    /// Luban.
    pub luban: bool,
    /// Planck.
    pub planck: bool,
    /// Gibbs.
    pub gibbs: MovableFork,
    /// Moran.
    pub moran: MovableFork,
    /// Nano.
    pub nano: MovableFork,
    /// Euler.
    pub euler: bool,
    /// Bruno.
    pub bruno: bool,
    /// Mirror sync.
    pub mirror_sync: bool,
    /// Niels.
    pub niels: bool,
    /// Ramanujan.
    pub ramanujan: bool,
}

impl ActiveForks {
    /// The forks above Gibbs, Moran and Nano, the latest first.
    pub open spec fn late(self) -> Seq<(bool, BscHardfork)> {
        seq![
            (self.mendel, BscHardfork::Mendel),
            (self.osaka, BscHardfork::Osaka),
            (self.fermi, BscHardfork::Fermi),
            (self.maxwell, BscHardfork::Maxwell),
            (self.lorentz, BscHardfork::Lorentz),
            (self.pascal, BscHardfork::Pascal),
            (self.bohr, BscHardfork::Bohr),
            (self.haber_fix, BscHardfork::HaberFix),
            (self.haber, BscHardfork::Haber),
            (self.cancun, BscHardfork::Cancun),
            (self.feynman_fix, BscHardfork::FeynmanFix),
            (self.feynman, BscHardfork::Feynman),
            (self.kepler, BscHardfork::Kepler),
            (self.hertz_fix, BscHardfork::HertzFix),
            (self.hertz, BscHardfork::Hertz),
            (self.plato, BscHardfork::Plato),
            (self.luban, BscHardfork::Luban),
            (self.planck, BscHardfork::Planck),
        ]
    }

    /// The forks below Gibbs, Moran and Nano, the latest first.
    pub open spec fn early(self) -> Seq<(bool, BscHardfork)> {
        seq![
            (self.euler, BscHardfork::Euler),
            (self.bruno, BscHardfork::Bruno),
            (self.mirror_sync, BscHardfork::MirrorSync),
            (self.niels, BscHardfork::Niels),
            (self.ramanujan, BscHardfork::Ramanujan),
        ]
    }

    /// The latest active one of Gibbs, Moran and Nano; of those that come at the same block, the
    /// first in this order.
    pub open spec fn movable(self) -> Option<BscHardfork> {
        let (g, m, n) = (self.gibbs, self.moran, self.nano);
        if g.active && (m.active ==> m.lateness() <= g.lateness()) && (n.active ==> n.lateness()
            <= g.lateness()) {
            Some(BscHardfork::Gibbs)
        } else if m.active && (n.active ==> n.lateness() <= m.lateness()) {
            Some(BscHardfork::Moran)
        } else if n.active {
            Some(BscHardfork::Nano)
        } else {
            None
        }
    }

    /// Whether a fork is active.
    pub open spec fn active(self, fork: BscHardfork) -> bool {
        ||| fork == BscHardfork::Frontier
        ||| fork == BscHardfork::Gibbs && self.gibbs.active
        ||| fork == BscHardfork::Moran && self.moran.active
        ||| fork == BscHardfork::Nano && self.nano.active
        ||| self.late().contains((true, fork))
        ||| self.early().contains((true, fork))
    }
}

/// The first fork of a list that is active.
pub open spec fn first_active(forks: Seq<(bool, BscHardfork)>) -> Option<BscHardfork>
    decreases forks.len(),
{
    if forks.len() == 0 {
        None
    } else if forks[0].0 {
        Some(forks[0].1)
    } else {
        first_active(forks.drop_first())
    }
}

/// The fork that rules a block: the latest that is active.
pub open spec fn ruling_fork(f: ActiveForks) -> BscHardfork {
    match first_active(f.late()) {
        Some(fork) => fork,
        None => match f.movable() {
            Some(fork) => fork,
            None => match first_active(f.early()) {
                Some(fork) => fork,
                None => BscHardfork::Frontier,
            },
        },
    }
}

fn first_of(forks: &[(bool, BscHardfork)]) -> (r: Option<BscHardfork>)
    ensures
        r == first_active(forks@),
{
    let mut i: usize = 0;
    proof {
        assert(forks@.skip(0) =~= forks@);
    }
    while i < forks.len()
        invariant
            i <= forks@.len(),
            first_active(forks@) == first_active(forks@.skip(i as int)),
        decreases forks@.len() - i,
    {
        if forks[i].0 {
            return Some(forks[i].1);
        }
        proof {
            assert(forks@.skip(i as int).drop_first() =~= forks@.skip(i + 1));
        }
        i += 1;
    }
    None
}

/// Whether the first of two forks comes later than the second, by the block that activates it.
fn comes_later(a: &MovableFork, b: &MovableFork) -> (r: bool)
    ensures
        r == (a.lateness() > b.lateness()),
{
    match (a.condition.activation_block(), b.condition.activation_block()) {
        (Some(x), Some(y)) => x > y,
        (Some(_), None) => true,
        (None, _) => false,
    }
}

/// The fork that rules a block, from the forks that are active at its time and number.
pub fn revm_spec_by_timestamp_and_block_number(f: &ActiveForks) -> (r: BscHardfork)
    ensures
        r == ruling_fork(*f),
        f.active(r),
{
    proof {
        law_ruling_fork_is_active(*f);
    }
    let late: [(bool, BscHardfork); 18] = [
        (f.mendel, BscHardfork::Mendel),
        (f.osaka, BscHardfork::Osaka),
        (f.fermi, BscHardfork::Fermi),
        (f.maxwell, BscHardfork::Maxwell),
        (f.lorentz, BscHardfork::Lorentz),
        (f.pascal, BscHardfork::Pascal),
        (f.bohr, BscHardfork::Bohr),
        (f.haber_fix, BscHardfork::HaberFix),
        (f.haber, BscHardfork::Haber),
        (f.cancun, BscHardfork::Cancun),
        (f.feynman_fix, BscHardfork::FeynmanFix),
        (f.feynman, BscHardfork::Feynman),
        (f.kepler, BscHardfork::Kepler),
        (f.hertz_fix, BscHardfork::HertzFix),
        (f.hertz, BscHardfork::Hertz),
        (f.plato, BscHardfork::Plato),
        (f.luban, BscHardfork::Luban),
        (f.planck, BscHardfork::Planck),
    ];
    proof {
        assert(late@ =~= f.late());
    }
    match first_of(&late) {
        Some(fork) => {
            return fork;
        },
        None => {},
    }
    if f.gibbs.active && !(f.moran.active && comes_later(&f.moran, &f.gibbs)) && !(f.nano.active
        && comes_later(&f.nano, &f.gibbs)) {
        return BscHardfork::Gibbs;
    }
    if f.moran.active && !(f.nano.active && comes_later(&f.nano, &f.moran)) {
        return BscHardfork::Moran;
    }
    if f.nano.active {
        return BscHardfork::Nano;
    }
    let early: [(bool, BscHardfork); 5] = [
        (f.euler, BscHardfork::Euler),
        (f.bruno, BscHardfork::Bruno),
        (f.mirror_sync, BscHardfork::MirrorSync),
        (f.niels, BscHardfork::Niels),
        (f.ramanujan, BscHardfork::Ramanujan),
    ];
    proof {
        assert(early@ =~= f.early());
    }
    match first_of(&early) {
        Some(fork) => fork,
        None => BscHardfork::Frontier,
    }
}

proof fn lemma_first_active(forks: Seq<(bool, BscHardfork)>)
    ensures
        first_active(forks) matches Some(fork) ==> forks.contains((true, fork)),
    decreases forks.len(),
{
    if forks.len() > 0 {
        if forks[0].0 {
            assert(forks[0] == (true, forks[0].1));
        } else {
            lemma_first_active(forks.drop_first());
            if first_active(forks) is Some {
                let fork = first_active(forks)->0;
                let i = choose|i: int|
                    0 <= i < forks.drop_first().len() && forks.drop_first()[i] == (true, fork);
                assert(forks[i + 1] == (true, fork));
            }
        }
    }
}

/// The flags of Cancun and Osaka say whether they are active.
pub proof fn lemma_active_flags(f: ActiveForks)
    ensures
        f.active(BscHardfork::Cancun) == f.cancun,
        f.active(BscHardfork::Osaka) == f.osaka,
{
    assert(f.late()[9] == (f.cancun, BscHardfork::Cancun));
    assert(f.late()[1] == (f.osaka, BscHardfork::Osaka));
    assert(forall|i: int|
        0 <= i < f.late().len() && (#[trigger] f.late()[i]).1 == BscHardfork::Cancun ==> i == 9);
    assert(forall|i: int|
        0 <= i < f.late().len() && (#[trigger] f.late()[i]).1 == BscHardfork::Osaka ==> i == 1);
    assert(forall|i: int|
        0 <= i < f.early().len() ==> (#[trigger] f.early()[i]).1 != BscHardfork::Cancun
            && f.early()[i].1 != BscHardfork::Osaka);
}

/// The fork that rules a block is active at it.
pub proof fn law_ruling_fork_is_active(f: ActiveForks)
    ensures
        f.active(ruling_fork(f)),
{
    lemma_first_active(f.late());
    lemma_first_active(f.early());
}

/// Of Gibbs, Moran and Nano none that is active comes later than the one that rules.
pub proof fn law_movable_fork_is_the_latest(f: ActiveForks)
    ensures
        f.movable() is None <==> !f.gibbs.active && !f.moran.active && !f.nano.active,
        f.movable() matches Some(fork) ==> {
            let ruling = if fork == BscHardfork::Gibbs {
                f.gibbs
            } else if fork == BscHardfork::Moran {
                f.moran
            } else {
                f.nano
            };
            &&& ruling.active
            &&& f.gibbs.active ==> f.gibbs.lateness() <= ruling.lateness()
            &&& f.moran.active ==> f.moran.lateness() <= ruling.lateness()
            &&& f.nano.active ==> f.nano.lateness() <= ruling.lateness()
        },
{
}

/// The place of a fork in the history of mainnet.
pub open spec fn age(fork: BscHardfork) -> nat {
    match fork {
        BscHardfork::Frontier => 0,
        BscHardfork::Ramanujan => 1,
        BscHardfork::Niels => 2,
        BscHardfork::MirrorSync => 3,
        BscHardfork::Bruno => 4,
        BscHardfork::Euler => 5,
        BscHardfork::Nano => 6,
        BscHardfork::Moran => 7,
        BscHardfork::Gibbs => 8,
        BscHardfork::Planck => 9,
        BscHardfork::Luban => 10,
        BscHardfork::Plato => 11,
        BscHardfork::Hertz => 12,
        BscHardfork::HertzFix => 13,
        BscHardfork::Kepler => 14,
        BscHardfork::Feynman => 15,
        BscHardfork::FeynmanFix => 16,
        BscHardfork::Cancun => 17,
        BscHardfork::Haber => 18,
        BscHardfork::HaberFix => 19,
        BscHardfork::Bohr => 20,
        BscHardfork::Pascal => 21,
        BscHardfork::Lorentz => 22,
        BscHardfork::Maxwell => 23,
        BscHardfork::Fermi => 24,
        BscHardfork::Osaka => 25,
        BscHardfork::Mendel => 26,
        BscHardfork::Pasteur => 27,
    }
}

/// The latest active fork rules: none that is active came after it in the history of mainnet, and
/// none that is not active rules. Gibbs, Moran and Nano, whose order differs from chain to chain,
/// rule only where nothing later is active, and nothing earlier rules where one of them is active.
pub proof fn law_latest_fork_rules(f: ActiveForks)
    ensures
        f.ramanujan ==> age(BscHardfork::Ramanujan) <= age(ruling_fork(f)),
        f.niels ==> age(BscHardfork::Niels) <= age(ruling_fork(f)),
        f.mirror_sync ==> age(BscHardfork::MirrorSync) <= age(ruling_fork(f)),
        f.bruno ==> age(BscHardfork::Bruno) <= age(ruling_fork(f)),
        f.euler ==> age(BscHardfork::Euler) <= age(ruling_fork(f)),
        f.planck ==> age(BscHardfork::Planck) <= age(ruling_fork(f)),
        f.luban ==> age(BscHardfork::Luban) <= age(ruling_fork(f)),
        f.plato ==> age(BscHardfork::Plato) <= age(ruling_fork(f)),
        f.hertz ==> age(BscHardfork::Hertz) <= age(ruling_fork(f)),
        f.hertz_fix ==> age(BscHardfork::HertzFix) <= age(ruling_fork(f)),
        f.kepler ==> age(BscHardfork::Kepler) <= age(ruling_fork(f)),
        f.feynman ==> age(BscHardfork::Feynman) <= age(ruling_fork(f)),
        f.feynman_fix ==> age(BscHardfork::FeynmanFix) <= age(ruling_fork(f)),
        f.cancun ==> age(BscHardfork::Cancun) <= age(ruling_fork(f)),
        f.haber ==> age(BscHardfork::Haber) <= age(ruling_fork(f)),
        f.haber_fix ==> age(BscHardfork::HaberFix) <= age(ruling_fork(f)),
        f.bohr ==> age(BscHardfork::Bohr) <= age(ruling_fork(f)),
        f.pascal ==> age(BscHardfork::Pascal) <= age(ruling_fork(f)),
        f.lorentz ==> age(BscHardfork::Lorentz) <= age(ruling_fork(f)),
        f.maxwell ==> age(BscHardfork::Maxwell) <= age(ruling_fork(f)),
        f.fermi ==> age(BscHardfork::Fermi) <= age(ruling_fork(f)),
        f.osaka ==> age(BscHardfork::Osaka) <= age(ruling_fork(f)),
        f.mendel ==> age(BscHardfork::Mendel) <= age(ruling_fork(f)),
        !f.ramanujan ==> ruling_fork(f) != BscHardfork::Ramanujan,
        !f.niels ==> ruling_fork(f) != BscHardfork::Niels,
        !f.mirror_sync ==> ruling_fork(f) != BscHardfork::MirrorSync,
        !f.bruno ==> ruling_fork(f) != BscHardfork::Bruno,
        !f.euler ==> ruling_fork(f) != BscHardfork::Euler,
        !f.planck ==> ruling_fork(f) != BscHardfork::Planck,
        !f.luban ==> ruling_fork(f) != BscHardfork::Luban,
        !f.plato ==> ruling_fork(f) != BscHardfork::Plato,
        !f.hertz ==> ruling_fork(f) != BscHardfork::Hertz,
        !f.hertz_fix ==> ruling_fork(f) != BscHardfork::HertzFix,
        !f.kepler ==> ruling_fork(f) != BscHardfork::Kepler,
        !f.feynman ==> ruling_fork(f) != BscHardfork::Feynman,
        !f.feynman_fix ==> ruling_fork(f) != BscHardfork::FeynmanFix,
        !f.cancun ==> ruling_fork(f) != BscHardfork::Cancun,
        !f.haber ==> ruling_fork(f) != BscHardfork::Haber,
        !f.haber_fix ==> ruling_fork(f) != BscHardfork::HaberFix,
        !f.bohr ==> ruling_fork(f) != BscHardfork::Bohr,
        !f.pascal ==> ruling_fork(f) != BscHardfork::Pascal,
        !f.lorentz ==> ruling_fork(f) != BscHardfork::Lorentz,
        !f.maxwell ==> ruling_fork(f) != BscHardfork::Maxwell,
        !f.fermi ==> ruling_fork(f) != BscHardfork::Fermi,
        !f.osaka ==> ruling_fork(f) != BscHardfork::Osaka,
        !f.mendel ==> ruling_fork(f) != BscHardfork::Mendel,
        f.gibbs.active || f.moran.active || f.nano.active ==> age(BscHardfork::Nano) <= age(
            ruling_fork(f),
        ),
        ruling_fork(f) == BscHardfork::Gibbs ==> f.gibbs.active,
        ruling_fork(f) == BscHardfork::Moran ==> f.moran.active,
        ruling_fork(f) == BscHardfork::Nano ==> f.nano.active,
        ruling_fork(f) != BscHardfork::Pasteur,
{
    lemma_first_is_first(f.late());
    lemma_first_is_first(f.early());
    assert(f.late()[0] == (f.mendel, BscHardfork::Mendel));
    assert(f.late()[1] == (f.osaka, BscHardfork::Osaka));
    assert(f.late()[2] == (f.fermi, BscHardfork::Fermi));
    assert(f.late()[3] == (f.maxwell, BscHardfork::Maxwell));
    assert(f.late()[4] == (f.lorentz, BscHardfork::Lorentz));
    assert(f.late()[5] == (f.pascal, BscHardfork::Pascal));
    assert(f.late()[6] == (f.bohr, BscHardfork::Bohr));
    assert(f.late()[7] == (f.haber_fix, BscHardfork::HaberFix));
    assert(f.late()[8] == (f.haber, BscHardfork::Haber));
    assert(f.late()[9] == (f.cancun, BscHardfork::Cancun));
    assert(f.late()[10] == (f.feynman_fix, BscHardfork::FeynmanFix));
    assert(f.late()[11] == (f.feynman, BscHardfork::Feynman));
    assert(f.late()[12] == (f.kepler, BscHardfork::Kepler));
    assert(f.late()[13] == (f.hertz_fix, BscHardfork::HertzFix));
    assert(f.late()[14] == (f.hertz, BscHardfork::Hertz));
    assert(f.late()[15] == (f.plato, BscHardfork::Plato));
    assert(f.late()[16] == (f.luban, BscHardfork::Luban));
    assert(f.late()[17] == (f.planck, BscHardfork::Planck));
    assert(f.early()[0] == (f.euler, BscHardfork::Euler));
    assert(f.early()[1] == (f.bruno, BscHardfork::Bruno));
    assert(f.early()[2] == (f.mirror_sync, BscHardfork::MirrorSync));
    assert(f.early()[3] == (f.niels, BscHardfork::Niels));
    assert(f.early()[4] == (f.ramanujan, BscHardfork::Ramanujan));
}

/// Of Gibbs, Moran and Nano the one that rules was activated at the latest block; of those at the
/// same block the first in this order rules, and one that no block activates only where it is
/// alone.
pub proof fn law_latest_block_rules_among_the_movable(f: ActiveForks)
    ensures
        ({
            let ruling = ruling_fork(f);
            let (g, m, n) = (f.gibbs, f.moran, f.nano);
            &&& ruling == BscHardfork::Gibbs && m.active ==> (m.condition matches
                ForkCondition::Block(b) ==> (g.condition matches ForkCondition::Block(a) && b <= a))
            &&& ruling == BscHardfork::Gibbs && n.active ==> (n.condition matches
                ForkCondition::Block(b) ==> (g.condition matches ForkCondition::Block(a) && b <= a))
            &&& ruling == BscHardfork::Moran && n.active ==> (n.condition matches
                ForkCondition::Block(b) ==> (m.condition matches ForkCondition::Block(a) && b <= a))
            &&& ruling == BscHardfork::Moran && g.active ==> (m.condition matches
                ForkCondition::Block(a) && (g.condition matches ForkCondition::Block(b) ==> b < a))
            &&& ruling == BscHardfork::Nano && g.active ==> (n.condition matches
                ForkCondition::Block(a) && (g.condition matches ForkCondition::Block(b) ==> b < a))
            &&& ruling == BscHardfork::Nano && m.active ==> (n.condition matches
                ForkCondition::Block(a) && (m.condition matches ForkCondition::Block(b) ==> b < a))
        }),
{
    lemma_first_is_first(f.late());
    lemma_first_is_first(f.early());
    assert(forall|i: int|
        0 <= i < f.late().len() ==> (#[trigger] f.late()[i]).1 != BscHardfork::Gibbs
            && f.late()[i].1 != BscHardfork::Moran && f.late()[i].1 != BscHardfork::Nano);
    assert(forall|i: int|
        0 <= i < f.early().len() ==> (#[trigger] f.early()[i]).1 != BscHardfork::Gibbs
            && f.early()[i].1 != BscHardfork::Moran && f.early()[i].1 != BscHardfork::Nano);
}

proof fn lemma_first_is_first(forks: Seq<(bool, BscHardfork)>)
    ensures
        match first_active(forks) {
            Some(fork) => exists|i: int|
                0 <= i < forks.len() && (#[trigger] forks[i]) == (true, fork) && forall|j: int|
                    0 <= j < i ==> !(#[trigger] forks[j]).0,
            None => forall|j: int| 0 <= j < forks.len() ==> !(#[trigger] forks[j]).0,
        },
    decreases forks.len(),
{
    if forks.len() > 0 {
        let rest = forks.drop_first();
        if forks[0].0 {
            assert(forks[0] == (true, forks[0].1));
        } else {
            lemma_first_is_first(rest);
            assert(forall|j: int| 0 <= j < rest.len() ==> (#[trigger] rest[j]) == forks[j + 1]);
            match first_active(rest) {
                Some(fork) => {
                    let i = choose|i: int|
                        0 <= i < rest.len() && (#[trigger] rest[i]) == (true, fork) && forall|
                            j: int,
                        |
                            0 <= j < i ==> !(#[trigger] rest[j]).0;
                    assert(forks[i + 1] == (true, fork));
                    assert forall|j: int| 0 <= j < i + 1 implies !(#[trigger] forks[j]).0 by {
                        if j > 0 {
                            assert(!rest[j - 1].0);
                        }
                    }
                },
                None => {
                    assert forall|j: int| 0 <= j < forks.len() implies !(#[trigger] forks[j]).0 by {
                        if j > 0 {
                            assert(!rest[j - 1].0);
                        }
                    }
                },
            }
        }
    }
}

/// The forks came one after the other, from the genesis block on, in the order in which they are
/// listed.
pub proof fn law_forks_came_in_order()
    ensures
        age(BscHardfork::Frontier) < age(BscHardfork::Ramanujan) < age(BscHardfork::Niels) < age(
            BscHardfork::MirrorSync,
        ) < age(BscHardfork::Bruno) < age(BscHardfork::Euler) < age(BscHardfork::Nano) < age(
            BscHardfork::Moran,
        ) < age(BscHardfork::Gibbs) < age(BscHardfork::Planck) < age(BscHardfork::Luban) < age(
            BscHardfork::Plato,
        ) < age(BscHardfork::Hertz) < age(BscHardfork::HertzFix) < age(BscHardfork::Kepler) < age(
            BscHardfork::Feynman,
        ) < age(BscHardfork::FeynmanFix) < age(BscHardfork::Cancun) < age(BscHardfork::Haber) < age(
            BscHardfork::HaberFix,
        ) < age(BscHardfork::Bohr) < age(BscHardfork::Pascal) < age(BscHardfork::Lorentz) < age(
            BscHardfork::Maxwell,
        ) < age(BscHardfork::Fermi) < age(BscHardfork::Osaka) < age(BscHardfork::Mendel) < age(
            BscHardfork::Pasteur,
        ),
{
}

} // verus!
