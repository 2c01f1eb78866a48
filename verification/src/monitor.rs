//! The monitor: linear rescaling and classification with hysteresis.
use crate::fault::Fault;
use crate::range::{lemma_range_bounds_fit, Interval, Range};
use crate::sample::Sample;
use vstd::arithmetic::div_mod::{
    lemma_div_is_ordered, lemma_div_multiples_vanish, lemma_div_of0, lemma_fundamental_div_mod,
    lemma_fundamental_div_mod_converse, lemma_mod_bound,
};
use vstd::prelude::*;

verus! {

/// The direction and signed magnitude of an excursion from the nominal band:
/// `Low` carries a negative distance from its lower bound, `High` a positive
/// distance from its upper bound.
#[derive(Clone, Copy, Debug, PartialEq, Eq)]
pub enum Deviation {
    Low(i128),
    High(i128),
}

/// The health of the channel at one reading. Each variant carries the mapped
/// value; `Alert` marks a fresh excursion, `Error` a sustained one.
#[derive(Clone, Copy, Debug, PartialEq, Eq)]
pub enum State {
    Nominal(i64),
    Alert(i64, Deviation),
    Error(i64, Deviation),
}

/// The mathematical value of a [`Deviation`].
pub enum Shift {
    Low(int),
    High(int),
}

/// The mathematical value of a [`State`].
pub enum Health {
    Nominal(int),
    Alert(int, Shift),
    Error(int, Shift),
}

impl View for Deviation {
    type V = Shift;

    open spec fn view(&self) -> Shift {
        match *self {
            Deviation::Low(gap) => Shift::Low(gap as int),
            Deviation::High(gap) => Shift::High(gap as int),
        }
    }
}

impl View for State {
    type V = Health;

    open spec fn view(&self) -> Health {
        match *self {
            State::Nominal(value) => Health::Nominal(value as int),
            State::Alert(value, deviation) => Health::Alert(value as int, deviation@),
            State::Error(value, deviation) => Health::Error(value as int, deviation@),
        }
    }
}

/// The three intervals that a [`Monitor`] stands for.
pub struct Scales {
    pub domain: Interval,
    pub destination: Interval,
    pub nominal: Interval,
}

/// A signed distance tagged with its side: negative is low, positive is high.
pub open spec fn tagged(gap: int) -> Shift {
    if gap < 0 {
        Shift::Low(gap)
    } else {
        Shift::High(gap)
    }
}

/// The health of a channel whose current and previous readings were mapped
/// to `current` and `previous`, judged against the band `nominal`.
///
/// Inside the band the state is `Nominal`. Outside it, the excursion is
/// sustained (`Error`) when the previous value lay outside on the same side,
/// and fresh (`Alert`) when the previous value lay inside or on the other
/// side.
pub open spec fn verdict(nominal: Interval, current: int, previous: int) -> Health {
    match nominal.deviation(current) {
        None => Health::Nominal(current),
        Some(gap) => match nominal.deviation(previous) {
            Some(before) if (before < 0) == (gap < 0) => Health::Error(current, tagged(gap)),
            _ => Health::Alert(current, tagged(gap)),
        },
    }
}

impl Scales {
    /// The nominal band lies within the destination scale, and all three
    /// intervals are ordered.
    pub open spec fn wf(self) -> bool {
        &&& self.domain.wf()
        &&& self.destination.wf()
        &&& self.nominal.wf()
        &&& self.destination.contains(self.nominal)
    }

    /// The destination value of the raw reading `x`: the point that lies as
    /// far along the destination scale as `x` lies along the domain, rounded
    /// down to a whole unit (towards negative infinity, also below the
    /// domain).
    pub open spec fn image(self, x: int) -> int
        recommends
            self.domain.size() != 0,
    {
        self.destination.min + ((x - self.domain.min) * self.destination.size())
            / self.domain.size()
    }

    /// Whether the image of the reading `x` fits in 64 bits. A degenerate
    /// domain is in reach: rescaling then fails before any arithmetic.
    pub open spec fn reaches(self, x: int) -> bool {
        self.domain.size() != 0 ==> i64::MIN <= self.image(x) <= i64::MAX
    }

    /// The health of the channel after the raw readings `previous` and then
    /// `current`.
    pub open spec fn classification(self, current: int, previous: int) -> Health
        recommends
            self.domain.size() != 0,
    {
        verdict(self.nominal, self.image(current), self.image(previous))
    }
}

/// Rescales readings from a domain into a destination scale and classifies
/// them against a nominal band inside that scale.
#[derive(Clone, Copy, Debug, PartialEq, Eq)]
pub struct Monitor {
    domain: Range,
    destination: Range,
    nominal: Range,
}

impl View for Monitor {
    type V = Scales;

    closed spec fn view(&self) -> Scales {
        Scales { domain: self.domain@, destination: self.destination@, nominal: self.nominal@ }
    }
}

impl Monitor {
    /// What holds of every monitor: its three intervals are ordered and
    /// the nominal band lies within the destination scale.
    #[verifier::type_invariant]
    pub open spec fn banded(self) -> bool {
        self@.wf()
    }

    /// Builds a monitor, or reports both ranges when the nominal band is not
    /// contained in the destination scale.
    pub fn new(domain: Range, destination: Range, nominal: Range) -> (built: Result<Monitor, Fault>)
        ensures
            destination@.contains(nominal@) ==> built.is_ok() && built.unwrap()@ == (Scales {
                domain: domain@,
                destination: destination@,
                nominal: nominal@,
            }) && built.unwrap()@.wf(),
            !destination@.contains(nominal@) ==> built == Err::<Monitor, Fault>(
                Fault::NominalOutOfDestination { nominal, destination },
            ),
    {
        if !destination.contains(&nominal) {
            return Err(Fault::NominalOutOfDestination { nominal, destination });
        }
        proof {
            use_type_invariant(&domain);
            use_type_invariant(&destination);
            use_type_invariant(&nominal);
        }
        Ok(Monitor { domain, destination, nominal })
    }

    /// The range of raw readings that the monitor expects.
    pub fn domain(&self) -> (range: Range)
        ensures
            range@ == self@.domain,
            self@.wf(),
    {
        proof {
            use_type_invariant(self);
        }
        self.domain
    }

    /// The scale into which readings are mapped.
    pub fn destination(&self) -> (range: Range)
        ensures
            range@ == self@.destination,
            self@.wf(),
    {
        proof {
            use_type_invariant(self);
        }
        self.destination
    }

    /// The band of the destination scale that counts as healthy.
    pub fn nominal(&self) -> (range: Range)
        ensures
            range@ == self@.nominal,
            self@.wf(),
    {
        proof {
            use_type_invariant(self);
        }
        self.nominal
    }

    /// The image of `x`, where it fits in 64 bits. The product of offset and
    /// destination size is formed as an unsigned magnitude of 128 bits, which
    /// holds it whatever the reading.
    fn rescale(&self, x: i64) -> (image: Option<i64>)
        requires
            self@.domain.size() != 0,
        ensures
            match image {
                Some(y) => y == self@.image(x as int),
                None => !(i64::MIN <= self@.image(x as int) <= i64::MAX),
            },
    {
        let span: u128 = self.domain.size() as u128;
        let reach: u128 = self.destination.size() as u128;
        let base: i128 = self.destination.min() as i128;
        let offset: i128 = x as i128 - self.domain.min() as i128;
        let below: bool = offset < 0;
        let distance: u128 = if below {
            (-offset) as u128
        } else {
            offset as u128
        };
        assert(distance * reach <= u128::MAX) by (nonlinear_arith)
            requires
                distance <= u64::MAX,
                reach <= u64::MAX,
        ;
        let product: u128 = distance * reach;
        let whole: u128 = product / span;
        let rest: u128 = product % span;
        proof {
            lemma_fundamental_div_mod(product as int, span as int);
        }
        if below {
            let room: u128 = (base - i64::MIN as i128) as u128;
            proof {
                let signed = (x - self@.domain.min) * self@.destination.size();
                assert(signed == -(product as int)) by (nonlinear_arith)
                    requires
                        signed == offset * reach,
                        offset == -(distance as int),
                        product == distance * reach,
                ;
                if rest == 0 {
                    assert(signed == (-(whole as int)) * span + 0) by (nonlinear_arith)
                        requires
                            signed == -(product as int),
                            product == span * whole + rest,
                            rest == 0,
                    ;
                    lemma_fundamental_div_mod_converse(signed, span as int, -(whole as int), 0);
                } else {
                    assert(signed == (-(whole as int) - 1) * span + (span - rest))
                        by (nonlinear_arith)
                        requires
                            signed == -(product as int),
                            product == span * whole + rest,
                    ;
                    lemma_fundamental_div_mod_converse(
                        signed,
                        span as int,
                        -(whole as int) - 1,
                        span - rest,
                    );
                }
            }
            if rest == 0 {
                if whole <= room {
                    Some((base - whole as i128) as i64)
                } else {
                    None
                }
            } else {
                if whole < room {
                    Some((base - whole as i128 - 1) as i64)
                } else {
                    None
                }
            }
        } else {
            let room: u128 = (i64::MAX as i128 - base) as u128;
            assert((x - self@.domain.min) * self@.destination.size() == product) by (nonlinear_arith)
                requires
                    x - self@.domain.min == distance,
                    self@.destination.size() == reach,
                    product == distance * reach,
            ;
            if whole <= room {
                Some((base + whole as i128) as i64)
            } else {
                None
            }
        }
    }

    /// Whether the image of `x` fits in 64 bits, which [`Monitor::map`] and
    /// [`Monitor::classify`] ask of their readings.
    pub fn can_map(&self, x: i64) -> (fits: bool)
        ensures
            fits == self@.reaches(x as int),
    {
        if self.domain.size() == 0 {
            return true;
        }
        self.rescale(x).is_some()
    }

    /// Rescales the raw reading `x` linearly from the domain into the
    /// destination scale:
    /// `destination.min + (x - domain.min) * destination.size / domain.size`,
    /// rounded down to a whole unit. A domain of size zero is reported,
    /// never divided by.
    pub fn map(&self, x: i64) -> (mapped: Result<i64, Fault>)
        requires
            self@.reaches(x as int),
        ensures
            self@.domain.size() == 0 ==> (mapped matches Err(Fault::DegenerateDomain { domain })
                && domain@ == self@.domain),
            self@.domain.size() != 0 ==> (mapped matches Ok(y) && y == self@.image(x as int)),
    {
        if self.domain.size() == 0 {
            return Err(Fault::DegenerateDomain { domain: self.domain });
        }
        Ok(self.rescale(x).unwrap())
    }

    /// Classifies the current reading, given the one before it.
    ///
    /// Both readings are rescaled; the current one is judged against the
    /// nominal band, and the previous one decides whether an excursion is
    /// fresh or sustained.
    pub fn classify(&self, current: Sample, previous: Sample) -> (state: Result<State, Fault>)
        requires
            self@.reaches(current.reading() as int),
            self@.reaches(previous.reading() as int),
        ensures
            self@.domain.size() == 0 ==> (state matches Err(Fault::DegenerateDomain { domain })
                && domain@ == self@.domain),
            self@.domain.size() != 0 ==> (state matches Ok(s) && s@ == self@.classification(
                current.reading() as int,
                previous.reading() as int,
            )),
    {
        let now: i64 = match self.map(current.value()) {
            Ok(y) => y,
            Err(fault) => {
                return Err(fault);
            },
        };
        let before: i64 = match self.map(previous.value()) {
            Ok(y) => y,
            Err(fault) => {
                return Err(fault);
            },
        };
        Ok(judge(&self.nominal, now, before))
    }
}

/// Judges a mapped reading against the band `nominal`, given the mapped
/// reading before it.
pub fn judge(nominal: &Range, current: i64, previous: i64) -> (state: State)
    ensures
        state@ == verdict(nominal@, current as int, previous as int),
{
    match nominal.deviation(current) {
        None => State::Nominal(current),
        Some(gap) => {
            let sustained = match nominal.deviation(previous) {
                Some(before) => (before < 0) == (gap < 0),
                None => false,
            };
            let deviation = if gap < 0 {
                Deviation::Low(gap)
            } else {
                Deviation::High(gap)
            };
            if sustained {
                State::Error(current, deviation)
            } else {
                State::Alert(current, deviation)
            }
        },
    }
}

/// The ends of a domain of positive size are mapped onto the ends of the
/// destination scale, exactly.
pub proof fn lemma_image_of_ends(scales: Scales)
    requires
        scales.wf(),
        scales.domain.size() != 0,
    ensures
        scales.image(scales.domain.min) == scales.destination.min,
        scales.image(scales.domain.max) == scales.destination.max,
{
    let span = scales.domain.size();
    let reach = scales.destination.size();
    assert((scales.domain.min - scales.domain.min) * reach == 0) by (nonlinear_arith);
    lemma_div_of0(span);
    assert((scales.domain.max - scales.domain.min) * reach == span * reach);
    lemma_div_multiples_vanish(reach, span);
}

/// The image is the exact linear rescale rounded down: it is the greatest
/// whole destination value whose distance from `destination.min`, taken
/// `domain.size` times, does not exceed the offset of the reading taken
/// `destination.size` times.
pub proof fn lemma_image_rounds_down(scales: Scales, x: int)
    requires
        scales.wf(),
        scales.domain.size() != 0,
    ensures
        (scales.image(x) - scales.destination.min) * scales.domain.size() <= (x
            - scales.domain.min) * scales.destination.size(),
        (x - scales.domain.min) * scales.destination.size() < (scales.image(x)
            - scales.destination.min + 1) * scales.domain.size(),
{
    let span = scales.domain.size();
    let product = (x - scales.domain.min) * scales.destination.size();
    let whole = product / span;
    lemma_fundamental_div_mod(product, span);
    lemma_mod_bound(product, span);
    assert(whole * span <= product && product < (whole + 1) * span) by (nonlinear_arith)
        requires
            product == span * whole + product % span,
            0 <= product % span < span,
    ;
}

/// The mapping never decreases: a larger reading has no smaller image.
pub proof fn lemma_image_monotonic(scales: Scales, x: int, y: int)
    requires
        scales.wf(),
        scales.domain.size() != 0,
        x <= y,
    ensures
        scales.image(x) <= scales.image(y),
{
    let reach = scales.destination.size();
    let low = scales.domain.min;
    assert((x - low) * reach <= (y - low) * reach) by (nonlinear_arith)
        requires
            x <= y,
            0 <= reach,
    ;
    lemma_div_is_ordered((x - low) * reach, (y - low) * reach, scales.domain.size());
}

/// A reading inside a domain of positive size is mapped inside the
/// destination scale. When the destination bounds fit in 64 bits, so does
/// the mapped value.
pub proof fn lemma_image_within_destination(scales: Scales, x: int)
    requires
        scales.wf(),
        scales.domain.size() != 0,
        scales.domain.holds(x),
    ensures
        scales.destination.holds(scales.image(x)),
        i64::MIN <= scales.destination.min && scales.destination.max <= i64::MAX
            ==> scales.reaches(x),
{
    lemma_image_of_ends(scales);
    lemma_image_monotonic(scales, scales.domain.min, x);
    lemma_image_monotonic(scales, x, scales.domain.max);
}

/// Every reading inside the domain of a monitor is in reach of
/// [`Monitor::map`] and [`Monitor::classify`].
pub proof fn lemma_domain_in_reach(monitor: Monitor, x: i64)
    requires
        monitor@.wf(),
        monitor@.domain.holds(x as int),
    ensures
        monitor@.reaches(x as int),
{
    lemma_range_bounds_fit(monitor.destination);
    if monitor@.domain.size() != 0 {
        lemma_image_within_destination(monitor@, x as int);
    }
}

/// The state is `Nominal` exactly when the current value lies inside the
/// band, and every state carries the current value.
pub proof fn lemma_verdict_nominal_iff_inside(nominal: Interval, current: int, previous: int)
    ensures
        nominal.holds(current) <==> verdict(nominal, current, previous) == Health::Nominal(
            current,
        ),
        match verdict(nominal, current, previous) {
            Health::Nominal(v) => v == current,
            Health::Alert(v, _) => v == current,
            Health::Error(v, _) => v == current,
        },
{
}

/// Outside the band the state is `Error` exactly when the previous value lay
/// outside on the same side, and `Alert` otherwise; the deviation it carries
/// is that of the current value, `Low` below the band and `High` above it.
pub proof fn lemma_verdict_hysteresis(nominal: Interval, current: int, previous: int)
    requires
        nominal.wf(),
    ensures
        current < nominal.min && previous < nominal.min ==> verdict(nominal, current, previous)
            == Health::Error(current, Shift::Low(current - nominal.min)),
        current < nominal.min && previous >= nominal.min ==> verdict(nominal, current, previous)
            == Health::Alert(current, Shift::Low(current - nominal.min)),
        current > nominal.max && previous > nominal.max ==> verdict(nominal, current, previous)
            == Health::Error(current, Shift::High(current - nominal.max)),
        current > nominal.max && previous <= nominal.max ==> verdict(nominal, current, previous)
            == Health::Alert(current, Shift::High(current - nominal.max)),
{
}

/// A deviation that a state carries is never zero: `Low` is negative and
/// `High` is positive.
pub proof fn lemma_verdict_deviation_sign(nominal: Interval, current: int, previous: int)
    requires
        nominal.wf(),
    ensures
        match verdict(nominal, current, previous) {
            Health::Nominal(_) => true,
            Health::Alert(_, Shift::Low(gap)) | Health::Error(_, Shift::Low(gap)) => gap < 0,
            Health::Alert(_, Shift::High(gap)) | Health::Error(_, Shift::High(gap)) => gap > 0,
        },
{
}

/// The first reading to leave the band is an `Alert`, never an `Error`: when
/// the previous reading was mapped inside the band and the current one
/// outside, the state is an `Alert` that carries the current image and its
/// distance from the bound it crossed.
pub proof fn lemma_fresh_excursion_is_alert(scales: Scales, current: int, previous: int)
    requires
        scales.wf(),
        scales.nominal.holds(scales.image(previous)),
        !scales.nominal.holds(scales.image(current)),
    ensures
        scales.image(current) > scales.nominal.max ==> scales.classification(current, previous)
            == Health::Alert(
            scales.image(current),
            Shift::High(scales.image(current) - scales.nominal.max),
        ),
        scales.image(current) < scales.nominal.min ==> scales.classification(current, previous)
            == Health::Alert(
            scales.image(current),
            Shift::Low(scales.image(current) - scales.nominal.min),
        ),
{
}

/// An excursion that lasts two readings on the same side is an `Error` that
/// carries the current image and its deviation.
pub proof fn lemma_sustained_excursion_is_error(scales: Scales, current: int, previous: int)
    requires
        scales.wf(),
    ensures
        scales.image(previous) > scales.nominal.max && scales.image(current) > scales.nominal.max
            ==> scales.classification(current, previous) == Health::Error(
            scales.image(current),
            Shift::High(scales.image(current) - scales.nominal.max),
        ),
        scales.image(previous) < scales.nominal.min && scales.image(current) < scales.nominal.min
            ==> scales.classification(current, previous) == Health::Error(
            scales.image(current),
            Shift::Low(scales.image(current) - scales.nominal.min),
        ),
{
}

/// A deviation that changed side between two readings is a new excursion:
/// the state is an `Alert`, not an `Error`.
pub proof fn lemma_crossing_is_alert(scales: Scales, current: int, previous: int)
    requires
        scales.wf(),
    ensures
        scales.image(previous) > scales.nominal.max && scales.image(current) < scales.nominal.min
            ==> scales.classification(current, previous) == Health::Alert(
            scales.image(current),
            Shift::Low(scales.image(current) - scales.nominal.min),
        ),
        scales.image(previous) < scales.nominal.min && scales.image(current) > scales.nominal.max
            ==> scales.classification(current, previous) == Health::Alert(
            scales.image(current),
            Shift::High(scales.image(current) - scales.nominal.max),
        ),
{
}

} // verus!
