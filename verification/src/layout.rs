//! The layout model: the outputs that the compositor reports, the command that
//! configures each of them, and the merge of a remembered layout into the live
//! one by hardware identity.

use crate::digest::sha256_digest;
use crate::fingerprint::{fingerprint_text, identities, sorted_identities};
use crate::text::{
    decimal, decimal_string, hex_len, hex_string, join, join_strings, sort_strings, texts,
};
use vstd::prelude::*;

verus! {

/// Position and size of an output.
#[derive(Clone, Copy, Debug, PartialEq, Eq, Structural)]
pub struct Rect {
    pub x: u32,
    pub y: u32,
    pub width: u32,
    pub height: u32,
}

/// One output as the compositor reports it. `make`, `model` and `serial` name
/// the hardware; `name` is assigned by the compositor and may change.
#[derive(Debug)]
pub struct Output {
    pub name: String,
    pub make: String,
    pub model: String,
    pub serial: String,
    pub transform: Option<String>,
    pub rect: Rect,
    pub active: bool,
}

/// An output as a mathematical value.
pub struct OutputView {
    pub name: Seq<char>,
    pub make: Seq<char>,
    pub model: Seq<char>,
    pub serial: Seq<char>,
    pub transform: Option<Seq<char>>,
    pub rect: Rect,
    pub active: bool,
}

impl View for Output {
    type V = OutputView;

    open spec fn view(&self) -> OutputView {
        OutputView {
            name: self.name@,
            make: self.make@,
            model: self.model@,
            serial: self.serial@,
            transform: match self.transform {
                Some(t) => Some(t@),
                None => None,
            },
            rect: self.rect,
            active: self.active,
        }
    }
}

/// The views of a sequence of outputs, in order.
pub open spec fn output_views(outputs: Seq<Output>) -> Seq<OutputView> {
    Seq::new(outputs.len(), |i: int| outputs[i]@)
}

/// The rotation label of an output: `normal` where none is set.
pub open spec fn transform_label(transform: Option<Seq<char>>) -> Seq<char> {
    match transform {
        Some(label) => label,
        None => "normal"@,
    }
}

/// The command that switches an output on with its resolution, position and
/// rotation.
pub open spec fn enable_command(o: OutputView) -> Seq<char> {
    "output "@ + o.name + " enable res "@ + decimal(o.rect.width as nat) + "x"@ + decimal(
        o.rect.height as nat,
    ) + " pos "@ + decimal(o.rect.x as nat) + " "@ + decimal(o.rect.y as nat) + " transform "@
        + transform_label(o.transform)
}

/// The command that switches an output off.
pub open spec fn disable_command(o: OutputView) -> Seq<char> {
    "output "@ + o.name + " disable"@
}

/// The command that brings an output into the state that its record describes.
pub open spec fn output_command(o: OutputView) -> Seq<char> {
    if o.active {
        enable_command(o)
    } else {
        disable_command(o)
    }
}

/// What names a piece of hardware.
pub struct Hardware {
    pub make: Seq<char>,
    pub model: Seq<char>,
    pub serial: Seq<char>,
}

/// The hardware behind an output.
pub open spec fn hardware(o: OutputView) -> Hardware {
    Hardware { make: o.make, model: o.model, serial: o.serial }
}

/// The string that stands for a piece of hardware.
pub open spec fn hardware_identity(h: Hardware) -> Seq<char> {
    h.make + "|"@ + h.model + "|"@ + h.serial
}

/// The string that stands for the hardware behind an output.
pub open spec fn identity(o: OutputView) -> Seq<char> {
    hardware_identity(hardware(o))
}

/// An output with the geometry, rotation and activity of `stored`, and
/// everything else as in `live`.
pub open spec fn merged_output(live: OutputView, stored: OutputView) -> OutputView {
    OutputView { rect: stored.rect, transform: stored.transform, active: stored.active, ..live }
}

/// Writes the compositor command for an output.
pub fn sway_output_command(output: &Output) -> (command: String)
    ensures
        command@ == output_command(output@),
{
    let mut command = String::from_str("output ");
    command.append(output.name.as_str());
    if output.active {
        command.append(" enable res ");
        command.append(decimal_string(output.rect.width).as_str());
        command.append("x");
        command.append(decimal_string(output.rect.height).as_str());
        command.append(" pos ");
        command.append(decimal_string(output.rect.x).as_str());
        command.append(" ");
        command.append(decimal_string(output.rect.y).as_str());
        command.append(" transform ");
        match &output.transform {
            Some(label) => command.append(label.as_str()),
            None => command.append("normal"),
        }
    } else {
        command.append(" disable");
    }
    command
}

/// Writes the string that stands for the hardware behind an output.
pub fn unique_oem_identifier(output: &Output) -> (id: String)
    ensures
        id@ == identity(output@),
{
    let mut id = output.make.clone();
    id.append("|");
    id.append(output.model.as_str());
    id.append("|");
    id.append(output.serial.as_str());
    id
}

impl Clone for Output {
    fn clone(&self) -> (copy: Self)
        ensures
            copy == *self,
    {
        Output {
            name: self.name.clone(),
            make: self.make.clone(),
            model: self.model.clone(),
            serial: self.serial.clone(),
            transform: match &self.transform {
                Some(label) => Some(label.clone()),
                None => None,
            },
            rect: self.rect,
            active: self.active,
        }
    }
}

impl Output {
    /// Takes the geometry, rotation and activity of `other`; the name and the
    /// hardware identity stay.
    pub fn merge(&mut self, other: &Output)
        ensures
            final(self)@ == merged_output(old(self)@, other@),
    {
        self.active = other.active;
        self.rect.x = other.rect.x;
        self.rect.y = other.rect.y;
        self.rect.width = other.rect.width;
        self.rect.height = other.rect.height;
        self.transform =
        match &other.transform {
            Some(label) => Some(label.clone()),
            None => None,
        };
    }
}

/// The outputs that are attached at one moment, in the order of the report.
#[derive(Debug)]
pub struct Layout(pub Vec<Output>);

impl View for Layout {
    type V = Seq<OutputView>;

    open spec fn view(&self) -> Seq<OutputView> {
        output_views(self.0@)
    }
}

/// A live output has no counterpart in the remembered layout.
#[derive(Clone, Copy, Debug, PartialEq, Eq, Structural)]
pub struct ReconciliationError;

/// The layout as it is configured: a single output is always switched on, so
/// that no configuration leaves the user without a display.
pub open spec fn activated(layout: Seq<OutputView>) -> Seq<OutputView> {
    if layout.len() == 1 {
        seq![OutputView { active: true, ..layout[0] }]
    } else {
        layout
    }
}

/// The commands that configure a layout: one for each output, in order.
pub open spec fn commands(layout: Seq<OutputView>) -> Seq<Seq<char>> {
    Seq::new(layout.len(), |i: int| output_command(activated(layout)[i]))
}

/// The first output of `layout` whose hardware identity is `id`.
pub open spec fn find_by_identity(layout: Seq<OutputView>, id: Seq<char>) -> Option<OutputView>
    decreases layout.len(),
{
    if layout.len() == 0 {
        None
    } else if identity(layout[0]) == id {
        Some(layout[0])
    } else {
        find_by_identity(layout.drop_first(), id)
    }
}

/// Some output of `stored` has the hardware identity `id`.
pub open spec fn knows(stored: Seq<OutputView>, id: Seq<char>) -> bool {
    exists|j: int| 0 <= j < stored.len() && identity(#[trigger] stored[j]) == id
}

/// Every output of `live` has a counterpart in `stored`: an output with the
/// same hardware identity.
pub open spec fn compatible(live: Seq<OutputView>, stored: Seq<OutputView>) -> bool {
    forall|i: int| 0 <= i < live.len() ==> knows(stored, identity(#[trigger] live[i]))
}

/// One live output after the merge: with the settings of its counterpart in
/// `stored`, or unchanged where it has none.
pub open spec fn reconciled(live: OutputView, stored: Seq<OutputView>) -> OutputView {
    match find_by_identity(stored, identity(live)) {
        Some(counterpart) => merged_output(live, counterpart),
        None => live,
    }
}

/// The live layout with the settings that `stored` remembers for each output.
pub open spec fn merged(live: Seq<OutputView>, stored: Seq<OutputView>) -> Seq<OutputView> {
    Seq::new(live.len(), |i: int| reconciled(live[i], stored))
}

/// The search by identity finds an output exactly where one with that
/// identity exists, and what it finds is the first of them.
pub proof fn find_by_identity_finds_first(layout: Seq<OutputView>, id: Seq<char>)
    ensures
        find_by_identity(layout, id) is Some <==> knows(layout, id),
        find_by_identity(layout, id) matches Some(found) ==> exists|j: int|
            0 <= j < layout.len() && #[trigger] layout[j] == found && identity(found) == id
                && forall|k: int| 0 <= k < j ==> identity(#[trigger] layout[k]) != id,
    decreases layout.len(),
{
    if layout.len() > 0 {
        let rest = layout.drop_first();
        if identity(layout[0]) == id {
            assert(layout[0] == find_by_identity(layout, id)->0);
        } else {
            find_by_identity_finds_first(rest, id);
            if knows(layout, id) {
                let j = choose|j: int| 0 <= j < layout.len() && identity(#[trigger] layout[j]) == id;
                assert(identity(rest[j - 1]) == id);
            }
            if find_by_identity(rest, id) is Some {
                let found = find_by_identity(rest, id)->0;
                let j = choose|j: int|
                    0 <= j < rest.len() && #[trigger] rest[j] == found && identity(found) == id
                        && forall|k: int| 0 <= k < j ==> identity(#[trigger] rest[k]) != id;
                assert(layout[j + 1] == found);
                assert forall|k: int| 0 <= k < j + 1 implies identity(#[trigger] layout[k])
                    != id by {
                    if k > 0 {
                        assert(rest[k - 1] == layout[k]);
                    }
                }
            }
        }
    }
}

/// After a merge each output has the geometry, rotation and activity of its
/// counterpart, an output of `stored` with the same hardware identity, and
/// keeps its own name and hardware.
pub proof fn merge_takes_settings_and_keeps_name(
    live: Seq<OutputView>,
    stored: Seq<OutputView>,
    i: int,
)
    requires
        compatible(live, stored),
        0 <= i < live.len(),
    ensures
        merged(live, stored).len() == live.len(),
        exists|j: int|
            0 <= j < stored.len() && identity(#[trigger] stored[j]) == identity(live[i]) && merged(
                live,
                stored,
            )[i] == (OutputView {
                rect: stored[j].rect,
                transform: stored[j].transform,
                active: stored[j].active,
                name: live[i].name,
                make: live[i].make,
                model: live[i].model,
                serial: live[i].serial,
            }),
{
    find_by_identity_finds_first(stored, identity(live[i]));
    assert(knows(stored, identity(live[i])));
    let found = find_by_identity(stored, identity(live[i]))->0;
    let j = choose|j: int|
        0 <= j < stored.len() && #[trigger] stored[j] == found && identity(found) == identity(
            live[i],
        );
    assert(identity(stored[j]) == identity(live[i]));
}

/// A live output whose hardware identity no output of `stored` has makes the
/// layouts incompatible, so that the merge fails.
pub proof fn unknown_identity_is_incompatible(
    live: Seq<OutputView>,
    stored: Seq<OutputView>,
    i: int,
)
    requires
        0 <= i < live.len(),
        forall|j: int| 0 <= j < stored.len() ==> identity(stored[j]) != identity(live[i]),
    ensures
        !compatible(live, stored),
{
    assert(!knows(stored, identity(live[i])));
}

/// A layout of one output is configured by the command that switches the
/// output on, whatever its record says of its activity.
pub proof fn single_output_is_enabled(layout: Seq<OutputView>)
    requires
        layout.len() == 1,
    ensures
        commands(layout) == seq![enable_command(layout[0])],
{
    assert(commands(layout) =~= seq![enable_command(layout[0])]);
}

/// In a layout of several outputs each is switched on or off as its record
/// says.
pub proof fn several_outputs_keep_their_state(layout: Seq<OutputView>, i: int)
    requires
        layout.len() >= 2,
        0 <= i < layout.len(),
    ensures
        commands(layout).len() == layout.len(),
        layout[i].active ==> commands(layout)[i] == enable_command(layout[i]),
        !layout[i].active ==> commands(layout)[i] == disable_command(layout[i]),
{
}

/// `pattern` occurs in `text`.
pub open spec fn occurs_in(pattern: Seq<char>, text: Seq<char>) -> bool {
    exists|at: int|
        0 <= at && at + pattern.len() <= text.len() && #[trigger] text.subrange(
            at,
            at + pattern.len(),
        ) == pattern
}

/// The command that switches on an output without a rotation label asks for
/// the rotation `normal`.
pub proof fn unset_transform_renders_normal(o: OutputView)
    requires
        o.transform is None,
    ensures
        occurs_in("transform normal"@, enable_command(o)),
        o.active ==> occurs_in("transform normal"@, output_command(o)),
{
    reveal_strlit("transform normal");
    reveal_strlit(" transform ");
    reveal_strlit("normal");
    let command = enable_command(o);
    let at = command.len() - 16;
    assert(command.subrange(at, at + 16) =~= "transform normal"@);
}

impl Clone for Layout {
    fn clone(&self) -> (copy: Self)
        ensures
            copy@ == self@,
    {
        let mut outputs: Vec<Output> = Vec::new();
        let mut i: usize = 0;
        while i < self.0.len()
            invariant
                i <= self.0.len(),
                outputs.len() == i,
                forall|k: int| 0 <= k < i ==> outputs[k] == self.0[k],
            decreases self.0.len() - i,
        {
            outputs.push(self.0[i].clone());
            i += 1;
        }
        let copy = Layout(outputs);
        assert(copy@ =~= self@);
        copy
    }
}

impl Layout {
    /// The key under which the settings for this set of hardware are
    /// remembered: it depends on the hardware identities alone, not on their
    /// order.
    pub fn fingerprint(&self) -> (digest: String)
        ensures
            digest@ == fingerprint_text(self@),
            digest@.len() == 64,
    {
        let joined = join_strings(&self.serialize_ids(), "+++");
        let digest = sha256_digest(joined.as_str().as_bytes());
        proof {
            hex_len(digest@);
        }
        hex_string(digest.as_slice())
    }

    /// The commands that configure this layout, one for each output.
    pub fn serialize_commands(&self) -> (rendered: Vec<String>)
        ensures
            texts(rendered@) == commands(self@),
    {
        let outputs = self.activate_only_output();
        let mut rendered: Vec<String> = Vec::new();
        let mut i: usize = 0;
        while i < outputs.len()
            invariant
                i <= outputs.len(),
                rendered.len() == i,
                output_views(outputs@) == activated(self@),
                forall|k: int| 0 <= k < i ==> rendered[k]@ == output_command(activated(self@)[k]),
            decreases outputs.len() - i,
        {
            assert(output_views(outputs@)[i as int] == outputs[i as int]@);
            rendered.push(sway_output_command(&outputs[i]));
            i += 1;
        }
        assert(output_views(outputs@).len() == outputs.len());
        assert(texts(rendered@) =~= commands(self@));
        rendered
    }

    /// Gives each output the settings that `other` remembers for the hardware
    /// behind it. Fails where an output has no counterpart in `other`.
    pub fn merge(self, other: Self) -> (result: Result<Layout, ReconciliationError>)
        ensures
            compatible(self@, other@) ==> result is Ok && result->Ok_0@ == merged(self@, other@),
            !compatible(self@, other@) ==> result is Err,
    {
        let mut outputs: Vec<Output> = Vec::new();
        let mut i: usize = 0;
        while i < self.0.len()
            invariant
                i <= self.0.len(),
                outputs.len() == i,
                forall|k: int| 0 <= k < i ==> knows(other@, identity(#[trigger] self@[k])),
                forall|k: int| 0 <= k < i ==> outputs[k]@ == reconciled(self@[k], other@),
            decreases self.0.len() - i,
        {
            assert(self@[i as int] == self.0[i as int]@);
            let mut output = self.0[i].clone();
            proof {
                find_by_identity_finds_first(other@, identity(output@));
            }
            match other.find_by_id(unique_oem_identifier(&output)) {
                Some(counterpart) => output.merge(counterpart),
                None => {
                    return Err(ReconciliationError);
                },
            }
            outputs.push(output);
            i += 1;
        }
        let layout = Layout(outputs);
        assert(layout@ =~= merged(self@, other@));
        assert forall|k: int| 0 <= k < self@.len() implies find_by_identity(
            other@,
            identity(#[trigger] self@[k]),
        ) is Some by {
            find_by_identity_finds_first(other@, identity(self@[k]));
        }
        Ok(layout)
    }

    /// The first output whose hardware identity is `id`.
    pub fn find_by_id(&self, id: String) -> (found: Option<&Output>)
        ensures
            match found {
                Some(output) => find_by_identity(self@, id@) == Some(output@),
                None => find_by_identity(self@, id@) is None,
            },
    {
        let mut i: usize = 0;
        assert(self@.skip(0) =~= self@);
        while i < self.0.len()
            invariant
                i <= self.0.len(),
                find_by_identity(self@, id@) == find_by_identity(self@.skip(i as int), id@),
            decreases self.0.len() - i,
        {
            let candidate = unique_oem_identifier(&self.0[i]);
            proof {
                let rest = self@.skip(i as int);
                assert(rest[0] == self.0[i as int]@);
                assert(rest.drop_first() =~= self@.skip(i + 1));
            }
            if candidate == id {
                return Some(&self.0[i]);
            }
            i += 1;
        }
        assert(self@.skip(i as int).len() == 0);
        None
    }

    /// The commands that configure this layout, one on each line.
    pub fn describe(&self) -> (listing: String)
        ensures
            listing@ == join(commands(self@), "\n"@),
    {
        join_strings(&self.serialize_commands(), "\n")
    }

    /// The hardware identity of each output, in ascending order.
    pub fn serialize_ids(&self) -> (ids: Vec<String>)
        ensures
            texts(ids@) == sorted_identities(self@),
    {
        let mut ids: Vec<String> = Vec::new();
        let mut i: usize = 0;
        while i < self.0.len()
            invariant
                i <= self.0.len(),
                ids.len() == i,
                forall|k: int| 0 <= k < i ==> ids[k]@ == identity(self.0[k]@),
            decreases self.0.len() - i,
        {
            ids.push(unique_oem_identifier(&self.0[i]));
            i += 1;
        }
        assert(texts(ids@) =~= identities(self@));
        sort_strings(&ids)
    }

    /// The outputs as they are configured: copies, with a single output
    /// switched on.
    pub fn activate_only_output(&self) -> (outputs: Vec<Output>)
        ensures
            output_views(outputs@) == activated(self@),
    {
        let mut outputs: Vec<Output> = Vec::with_capacity(self.0.len());
        let mut i: usize = 0;
        while i < self.0.len()
            invariant
                i <= self.0.len(),
                outputs.len() == i,
                forall|k: int| 0 <= k < i ==> outputs[k] == self.0[k],
            decreases self.0.len() - i,
        {
            outputs.push(self.0[i].clone());
            i += 1;
        }
        if outputs.len() == 1 {
            let mut only = outputs[0].clone();
            only.active = true;
            outputs.set(0, only);
        }
        assert(output_views(outputs@) =~= activated(self@));
        outputs
    }
}

} // verus!
