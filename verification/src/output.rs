use vstd::prelude::*;

use crate::error::AppError;
use crate::text::str_equals;

verus! {

/// A rectangle in compositor coordinates.
#[derive(Debug, Clone, Copy, Default, PartialEq, Eq, Structural)]
pub struct Rect {
    pub x: i32,
    pub y: i32,
    pub width: i32,
    pub height: i32,
}

/// How an output's content is rotated and flipped.
#[derive(Debug, Clone, Copy, PartialEq, Eq, Structural)]
pub enum OutputTransform {
    Normal,
    Rotate90,
    Rotate180,
    Rotate270,
    Flipped,
    Flipped90,
    Flipped180,
    Flipped270,
}

pub open spec fn is_quarter_turn_spec(transform: OutputTransform) -> bool {
    transform == OutputTransform::Rotate90 || transform == OutputTransform::Rotate270
        || transform == OutputTransform::Flipped90 || transform == OutputTransform::Flipped270
}

/// Whether the transform turns the output by a quarter, swapping its sides.
pub fn is_quarter_turn(transform: OutputTransform) -> (turned: bool)
    ensures
        turned == is_quarter_turn_spec(transform),
{
    match transform {
        OutputTransform::Rotate90 | OutputTransform::Rotate270 | OutputTransform::Flipped90
        | OutputTransform::Flipped270 => true,
        _ => false,
    }
}

/// What is known of an output: its mode and position, its logical geometry as the
/// compositor reports it (zero until reported), scale, transform and name.
#[derive(Debug, Clone)]
pub struct OutputState {
    pub registry_name: u32,
    pub geometry: Rect,
    pub logical_geometry: Rect,
    pub scale: i32,
    pub transform: OutputTransform,
    pub name: Option<String>,
}

/// `a / b` rounded toward zero, for `b > 0`.
pub open spec fn div_toward_zero(a: int, b: int) -> int {
    if a >= 0 { a / b } else { -((-a) / b) }
}

/// The scale an output's logical size is guessed with: its scale, at least 1.
pub open spec fn guess_scale(scale: i32) -> i32 {
    if scale < 1 { 1 } else { scale }
}

fn div_toward_zero_exec(a: i32, b: i32) -> (q: i32)
    requires
        b >= 1,
    ensures
        q == div_toward_zero(a as int, b as int),
{
    let a = a as i64;
    let b = b as i64;
    let q: i64 = if a >= 0 { a / b } else { 0 - ((0 - a) / b) };
    q as i32
}

impl OutputState {
    /// A newly announced output: nothing known yet, scale 1, untransformed.
    pub fn new(registry_name: u32) -> (output: Self)
        ensures
            output.registry_name == registry_name,
            output.geometry == (Rect { x: 0, y: 0, width: 0, height: 0 }),
            output.logical_geometry == (Rect { x: 0, y: 0, width: 0, height: 0 }),
            output.scale == 1,
            output.transform == OutputTransform::Normal,
            output.name is None,
    {
        OutputState {
            registry_name,
            geometry: Rect { x: 0, y: 0, width: 0, height: 0 },
            logical_geometry: Rect { x: 0, y: 0, width: 0, height: 0 },
            scale: 1,
            transform: OutputTransform::Normal,
            name: None,
        }
    }

    /// Records the current mode; its sides are swapped for quarter-turned outputs.
    pub fn update_current_mode(&mut self, width: i32, height: i32)
        ensures
            final(self).registry_name == old(self).registry_name,
            final(self).logical_geometry == old(self).logical_geometry,
            final(self).scale == old(self).scale,
            final(self).transform == old(self).transform,
            final(self).name == old(self).name,
            final(self).geometry.x == old(self).geometry.x,
            final(self).geometry.y == old(self).geometry.y,
            is_quarter_turn_spec(old(self).transform) ==> final(self).geometry.width == height && final(self).geometry.height == width,
            !is_quarter_turn_spec(old(self).transform) ==> final(self).geometry.width == width && final(self).geometry.height == height,
    {
        if is_quarter_turn(self.transform) {
            self.geometry.width = height;
            self.geometry.height = width;
        } else {
            self.geometry.width = width;
            self.geometry.height = height;
        }
    }

    /// The logical size: the reported logical side where positive, the mode's otherwise.
    pub fn logical_size(&self) -> (size: (i32, i32))
        ensures
            size.0 == if self.logical_geometry.width > 0 { self.logical_geometry.width } else { self.geometry.width },
            size.1 == if self.logical_geometry.height > 0 { self.logical_geometry.height } else { self.geometry.height },
    {
        let width = if self.logical_geometry.width > 0 { self.logical_geometry.width } else { self.geometry.width };
        let height = if self.logical_geometry.height > 0 { self.logical_geometry.height } else { self.geometry.height };
        (width, height)
    }
}

/// Whether the output is selected by the `--output` filter: any output without a
/// filter, only the output of exactly that name with one.
pub fn output_matches_filter(output: &OutputState, filter: Option<&str>) -> (matches: bool)
    ensures
        matches == (match filter {
            None => true,
            Some(f) => output.name matches Some(n) && n@ == f@,
        }),
{
    match filter {
        None => true,
        Some(f) => match &output.name {
            Some(n) => str_equals(n.as_str(), f),
            None => false,
        },
    }
}

/// Guesses the logical geometry of an output the compositor gave none for: its
/// position, and its sides (swapped for quarter turns) divided by the scale (at least
/// 1). Returns that scale.
pub fn guess_logical_geometry(output: &mut OutputState) -> (scale: i32)
    ensures
        scale == guess_scale(old(output).scale),
        final(output).registry_name == old(output).registry_name,
        final(output).geometry == old(output).geometry,
        final(output).scale == old(output).scale,
        final(output).transform == old(output).transform,
        final(output).name == old(output).name,
        final(output).logical_geometry.x == old(output).geometry.x,
        final(output).logical_geometry.y == old(output).geometry.y,
        final(output).logical_geometry.width == div_toward_zero(
            if is_quarter_turn_spec(old(output).transform) { old(output).geometry.height as int } else { old(output).geometry.width as int },
            scale as int),
        final(output).logical_geometry.height == div_toward_zero(
            if is_quarter_turn_spec(old(output).transform) { old(output).geometry.width as int } else { old(output).geometry.height as int },
            scale as int),
{
    output.logical_geometry.x = output.geometry.x;
    output.logical_geometry.y = output.geometry.y;
    let (width, height) = if is_quarter_turn(output.transform) {
        (output.geometry.height, output.geometry.width)
    } else {
        (output.geometry.width, output.geometry.height)
    };
    let scale = if output.scale < 1 { 1 } else { output.scale };
    output.logical_geometry.width = div_toward_zero_exec(width, scale);
    output.logical_geometry.height = div_toward_zero_exec(height, scale);
    scale
}

/// Indices of the outputs the filter selects, in order.
pub open spec fn selected_indices(outputs: Seq<OutputState>, filter: Option<Seq<char>>, k: int) -> Seq<usize>
    decreases k,
{
    if k <= 0 {
        Seq::empty()
    } else {
        let before = selected_indices(outputs, filter, k - 1);
        let o = outputs[k - 1];
        let selected = match filter {
            None => true,
            Some(f) => o.name matches Some(n) && n@ == f,
        };
        if selected { before.push((k - 1) as usize) } else { before }
    }
}

/// Whether an output's name is the one the filter asks for (any output without a filter).
pub open spec fn name_matches(o: OutputState, filter: Option<Seq<char>>) -> bool {
    match filter {
        None => true,
        Some(f) => o.name matches Some(n) && n@ == f,
    }
}

/// The selected indices are exactly those of the first `k` outputs whose name matches the
/// filter, each once and in increasing order; without a filter every output is selected.
pub proof fn lemma_selected_indices_are_the_matches(outputs: Seq<OutputState>, filter: Option<Seq<char>>, k: int)
    requires
        0 <= k <= outputs.len(),
        k <= usize::MAX,
    ensures
        ({
            let picked = selected_indices(outputs, filter, k);
            &&& forall|j: int| 0 <= j < k ==> (picked.contains(j as usize) <==> name_matches(#[trigger] outputs[j], filter))
            &&& forall|a: int, b: int| 0 <= a < b < picked.len() ==> picked[a] < picked[b]
            &&& forall|a: int| 0 <= a < picked.len() ==> picked[a] < k
            &&& filter is None ==> picked.len() == k
        }),
    decreases k,
{
    if k > 0 {
        lemma_selected_indices_are_the_matches(outputs, filter, k - 1);
        let before = selected_indices(outputs, filter, k - 1);
        let picked = selected_indices(outputs, filter, k);
        assert forall|j: int| 0 <= j < k implies (picked.contains(j as usize) <==> name_matches(#[trigger] outputs[j], filter)) by {
            if name_matches(outputs[k - 1], filter) {
                assert(picked == before.push((k - 1) as usize));
                if j < k - 1 {
                    if picked.contains(j as usize) {
                        let a = choose|a: int| 0 <= a < picked.len() && picked[a] == j as usize;
                        if a < before.len() {
                            assert(before[a] == j as usize);
                        }
                    }
                    if before.contains(j as usize) {
                        let a = choose|a: int| 0 <= a < before.len() && before[a] == j as usize;
                        assert(picked[a] == j as usize);
                    }
                } else {
                    assert(picked[before.len() as int] == j as usize);
                }
            } else {
                assert(picked == before);
                if j == k - 1 {
                    if picked.contains(j as usize) {
                        let a = choose|a: int| 0 <= a < picked.len() && picked[a] == j as usize;
                        assert(before[a] < k - 1);
                    }
                }
            }
        }
    }
}

/// The outputs to run on, as indices into `outputs`: those the filter selects. With
/// no output at all, or none selected, the matching error.
pub fn selected_outputs(outputs: &Vec<OutputState>, filter: Option<&str>) -> (selected: Result<Vec<usize>, AppError>)
    ensures
        outputs@.len() == 0 ==> selected == Err::<Vec<usize>, AppError>(AppError::NoOutputs),
        outputs@.len() > 0 ==> ({
            let picked = selected_indices(outputs@, match filter { Some(f) => Some(f@), None => None }, outputs@.len() as int);
            &&& picked.len() > 0 ==> (selected matches Ok(v) && v@ == picked)
            &&& picked.len() == 0 ==> match filter {
                Some(f) => selected matches Err(AppError::OutputNotFound { name }) && name@ == f@,
                None => selected == Err::<Vec<usize>, AppError>(AppError::NoSelectedOutputs),
            }
        }),
{
    let n = outputs.len();
    if n == 0 {
        return Err(AppError::NoOutputs);
    }
    let ghost spec_filter = match filter { Some(f) => Some(f@), None => None::<Seq<char>> };
    let mut picked: Vec<usize> = Vec::new();
    let mut i: usize = 0;
    while i < n
        invariant
            n == outputs@.len(),
            i <= n,
            spec_filter == match filter { Some(f) => Some(f@), None => None::<Seq<char>> },
            picked@ == selected_indices(outputs@, spec_filter, i as int),
        decreases n - i,
    {
        if output_matches_filter(&outputs[i], filter) {
            picked.push(i);
        }
        i = i + 1;
    }
    if picked.len() > 0 {
        return Ok(picked);
    }
    match filter {
        Some(f) => Err(AppError::OutputNotFound { name: f.to_string() }),
        None => Err(AppError::NoSelectedOutputs),
    }
}

} // verus!
