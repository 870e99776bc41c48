use vstd::prelude::*;
use vstd::string::StringExecFns;

verus! {

/// What a property window is for: to change an object that exists, or to
/// fill in one that is being made.
#[derive(Clone, Copy, Debug, PartialEq, Eq, Structural)]
pub enum PropertyWindowType {
    Modify,
    Create,
}

impl Default for PropertyWindowType {
    fn default() -> (kind: Self)
        ensures
            kind == PropertyWindowType::Modify,
    {
        PropertyWindowType::Modify
    }
}

/// The kinds of value that a property window can show.
#[derive(Clone, Copy, Debug, PartialEq, Eq, Structural)]
pub enum PropertyKind {
    Bool,
    Text,
    /// A text that names a file.
    Path,
    /// A whole number with a sign.
    Int,
    /// A whole number without a sign.
    UInt,
    Float,
    Color,
    DrawOptions,
    /// One of the layers of the project.
    Layer,
    /// One of the themes.
    Theme,
    /// Any other value: it is shown and cannot be changed.
    Other,
}

/// How a field can be used.
#[derive(Clone, Copy, Debug, PartialEq, Eq, Structural)]
pub enum Access {
    ReadOnly,
    ReadWrite,
}

/// One field of a property window.
pub struct Field {
    pub name: String,
    pub kind: PropertyKind,
    pub access: Access,
    /// The value differs from the one the window opened with.
    pub dirty: bool,
}

/// The buttons under the fields.
#[derive(Clone, Copy, Debug, PartialEq, Eq, Structural)]
pub enum PropertyWindowButtons {
    Modify,
    Create,
}

/// The name of a kind of value, as the window shows it. A kind that has no
/// name of its own in the window goes by `own_name`, the name of its type.
pub open spec fn kind_name(kind: PropertyKind, own_name: Seq<char>) -> Seq<char> {
    match kind {
        PropertyKind::Bool => "bool"@,
        PropertyKind::Text => "string"@,
        PropertyKind::Path => "path"@,
        PropertyKind::Int => "int"@,
        PropertyKind::UInt => "int"@,
        PropertyKind::Float => "float"@,
        PropertyKind::Color => "color"@,
        PropertyKind::DrawOptions => "theme options"@,
        PropertyKind::Layer => own_name,
        PropertyKind::Theme => own_name,
        PropertyKind::Other => own_name,
    }
}

/// The name of a kind of value, as the window shows it.
pub fn type_label<'a>(kind: PropertyKind, own_name: &'a str) -> (label: &'a str)
    ensures
        label@ == kind_name(kind, own_name@),
{
    match kind {
        PropertyKind::Bool => "bool",
        PropertyKind::Text => "string",
        PropertyKind::Path => "path",
        PropertyKind::Int => "int",
        PropertyKind::UInt => "int",
        PropertyKind::Float => "float",
        PropertyKind::Color => "color",
        PropertyKind::DrawOptions => "theme options",
        PropertyKind::Layer => own_name,
        PropertyKind::Theme => own_name,
        PropertyKind::Other => own_name,
    }
}

/// The marked-up text beside a field: what the field is for, unless that
/// says no more than its name; then its name; then the kind of its value.
pub open spec fn label_text(
    name: Seq<char>,
    blurb: Seq<char>,
    kind: PropertyKind,
    own_name: Seq<char>,
) -> Seq<char> {
    let key = "Key: <tt>"@ + name
        + "</tt>\nType: <span background=\"cornflowerblue\" foreground=\"white\"><tt> "@
        + kind_name(kind, own_name) + " </tt></span>"@;
    if blurb == name {
        key
    } else {
        "<span insert_hyphens=\"true\" allow_breaks=\"true\">"@ + blurb + "</span>\n\n"@ + key
    }
}

/// Writes the text beside a field. `own_name` is the name of the type of
/// the field's value.
pub fn get_label_for_property(name: &str, blurb: &str, kind: PropertyKind, own_name: &str) -> (label:
    String)
    ensures
        label@ == label_text(name@, blurb@, kind, own_name@),
{
    let mut label = String::new();
    if !(String::from_str(blurb) == String::from_str(name)) {
        label.append("<span insert_hyphens=\"true\" allow_breaks=\"true\">");
        label.append(blurb);
        label.append("</span>\n\n");
    }
    label.append("Key: <tt>");
    label.append(name);
    label.append("</tt>\nType: <span background=\"cornflowerblue\" foreground=\"white\"><tt> ");
    label.append(type_label(kind, own_name));
    label.append(" </tt></span>");
    assert(label@ =~= label_text(name@, blurb@, kind, own_name@));
    label
}

/// The control that shows a value.
#[derive(Clone, Copy, Debug, PartialEq, Eq, Structural)]
pub enum Widget {
    CheckButton,
    /// A line of text that can be edited.
    Entry,
    /// A line of text that takes a number.
    NumberEntry,
    /// A text that can be read and copied.
    Label,
    /// The name of a file, to read, with a button that opens the place
    /// where the file lies, if the object exists already.
    PathLabel { open_button: bool },
    /// A number, with this many digits after the point.
    SpinButton { digits: u8 },
    ColorButton,
    /// The colours and the size of a stroke, each with its own control.
    DrawOptionsGrid,
    /// A choice among names.
    ComboBox,
    /// A choice among the layers of the project, with the directory of the
    /// one chosen under it.
    LayerBox,
}

/// The control for a field of the kind and access given, in a window of the
/// type given. A text that can be changed gets an entry, whether or not it
/// names a file; one that cannot gets a label.
pub open spec fn widget_of(kind: PropertyKind, access: Access, type_: PropertyWindowType) -> Widget {
    match kind {
        PropertyKind::Bool => Widget::CheckButton,
        PropertyKind::Text => if access == Access::ReadWrite {
            Widget::Entry
        } else {
            Widget::Label
        },
        PropertyKind::Path => if access == Access::ReadWrite {
            Widget::Entry
        } else {
            Widget::PathLabel { open_button: type_ == PropertyWindowType::Modify }
        },
        PropertyKind::Int => Widget::SpinButton { digits: 0 },
        PropertyKind::UInt => Widget::SpinButton { digits: 0 },
        PropertyKind::Float => Widget::SpinButton { digits: 2 },
        PropertyKind::Color => Widget::ColorButton,
        PropertyKind::DrawOptions => Widget::DrawOptionsGrid,
        PropertyKind::Layer => Widget::LayerBox,
        PropertyKind::Theme => Widget::ComboBox,
        PropertyKind::Other => Widget::Label,
    }
}

/// Picks the control for a field of a property window.
pub fn property_widget(kind: PropertyKind, access: Access, type_: PropertyWindowType) -> (widget:
    Widget)
    ensures
        widget == widget_of(kind, access, type_),
{
    match kind {
        PropertyKind::Bool => Widget::CheckButton,
        PropertyKind::Text => match access {
            Access::ReadWrite => Widget::Entry,
            Access::ReadOnly => Widget::Label,
        },
        PropertyKind::Path => match access {
            Access::ReadWrite => Widget::Entry,
            Access::ReadOnly => match type_ {
                PropertyWindowType::Modify => Widget::PathLabel { open_button: true },
                PropertyWindowType::Create => Widget::PathLabel { open_button: false },
            },
        },
        PropertyKind::Int => Widget::SpinButton { digits: 0 },
        PropertyKind::UInt => Widget::SpinButton { digits: 0 },
        PropertyKind::Float => Widget::SpinButton { digits: 2 },
        PropertyKind::Color => Widget::ColorButton,
        PropertyKind::DrawOptions => Widget::DrawOptionsGrid,
        PropertyKind::Layer => Widget::LayerBox,
        PropertyKind::Theme => Widget::ComboBox,
        PropertyKind::Other => Widget::Label,
    }
}

/// The control for a value in a plain grid of properties: a check button
/// for a truth value, an entry for a text, an entry that takes a number
/// for a signed whole number and for a fraction, a label for all else.
pub open spec fn value_widget_of(kind: PropertyKind) -> Widget {
    match kind {
        PropertyKind::Bool => Widget::CheckButton,
        PropertyKind::Text => Widget::Entry,
        PropertyKind::Path => Widget::Entry,
        PropertyKind::Int => Widget::NumberEntry,
        PropertyKind::Float => Widget::NumberEntry,
        _ => Widget::Label,
    }
}

/// Picks the control for a value in a plain grid of properties.
pub fn get_widget_for_value(kind: PropertyKind) -> (widget: Widget)
    ensures
        widget == value_widget_of(kind),
{
    match kind {
        PropertyKind::Bool => Widget::CheckButton,
        PropertyKind::Text => Widget::Entry,
        PropertyKind::Path => Widget::Entry,
        PropertyKind::Int => Widget::NumberEntry,
        PropertyKind::Float => Widget::NumberEntry,
        _ => Widget::Label,
    }
}

/// The fields of an object laid out for editing, with the record of which
/// of them were changed.
pub struct PropertyWindow {
    title: String,
    friendly_name: String,
    type_: PropertyWindowType,
    fields: Vec<Field>,
}

/// Sets a property window up.
pub struct PropertyWindowBuilder {
    pub title: String,
    pub friendly_name: String,
    pub type_: PropertyWindowType,
}

impl PropertyWindowBuilder {
    pub fn new() -> (builder: Self)
        ensures
            builder.title@ == Seq::<char>::empty(),
            builder.friendly_name@ == Seq::<char>::empty(),
            builder.type_ == PropertyWindowType::Modify,
    {
        PropertyWindowBuilder {
            title: String::new(),
            friendly_name: String::new(),
            type_: PropertyWindowType::Modify,
        }
    }

    pub fn title(self, title: String) -> (builder: Self)
        ensures
            builder == (PropertyWindowBuilder { title, ..self }),
    {
        let mut builder = self;
        builder.title = title;
        builder
    }

    pub fn friendly_name(self, friendly_name: String) -> (builder: Self)
        ensures
            builder == (PropertyWindowBuilder { friendly_name, ..self }),
    {
        let mut builder = self;
        builder.friendly_name = friendly_name;
        builder
    }

    pub fn type_(self, type_: PropertyWindowType) -> (builder: Self)
        ensures
            builder == (PropertyWindowBuilder { type_, ..self }),
    {
        let mut builder = self;
        builder.type_ = type_;
        builder
    }

    /// The window, with no field yet.
    pub fn build(self) -> (window: PropertyWindow)
        ensures
            window.title_text() == self.title@,
            window.friendly() == self.friendly_name@,
            window.kind() == self.type_,
            window.fields() == Seq::<Field>::empty(),
    {
        let PropertyWindowBuilder { title, friendly_name, type_ } = self;
        PropertyWindow { title, friendly_name, type_, fields: Vec::new() }
    }
}

impl PropertyWindow {
    /// The title that the window was given.
    pub closed spec fn title_text(&self) -> Seq<char> {
        self.title@
    }

    /// The name by which the window calls its object.
    pub closed spec fn friendly(&self) -> Seq<char> {
        self.friendly_name@
    }

    /// What the window is for.
    pub closed spec fn kind(&self) -> PropertyWindowType {
        self.type_
    }

    /// The fields, in their order.
    pub closed spec fn fields(&self) -> Seq<Field> {
        self.fields@
    }

    /// For each field, in their order, whether it was changed.
    pub open spec fn dirty_flags(&self) -> Seq<bool> {
        self.fields().map_values(|f: Field| f.dirty)
    }

    /// Everything but the fields is as in `other`.
    pub open spec fn same_frame_as(&self, other: &Self) -> bool {
        &&& self.title_text() == other.title_text()
        &&& self.friendly() == other.friendly()
        &&& self.kind() == other.kind()
    }

    /// Begins a window: no title, no name, and to change an object.
    pub fn builder() -> (builder: PropertyWindowBuilder)
        ensures
            builder.title@ == Seq::<char>::empty(),
            builder.friendly_name@ == Seq::<char>::empty(),
            builder.type_ == PropertyWindowType::Modify,
    {
        PropertyWindowBuilder::new()
    }

    /// The buttons that the window has.
    pub fn buttons(&self) -> (buttons: PropertyWindowButtons)
        ensures
            buttons == match self.kind() {
                PropertyWindowType::Modify => PropertyWindowButtons::Modify,
                PropertyWindowType::Create => PropertyWindowButtons::Create,
            },
    {
        match self.type_ {
            PropertyWindowType::Modify => PropertyWindowButtons::Modify,
            PropertyWindowType::Create => PropertyWindowButtons::Create,
        }
    }

    /// Adds a field after those there are; it is unchanged. Returns its
    /// place.
    pub fn add(&mut self, name: String, kind: PropertyKind, access: Access) -> (index: usize)
        ensures
            index == old(self).fields().len(),
            final(self).fields() == old(self).fields().push(
                Field { name, kind, access, dirty: false },
            ),
            final(self).same_frame_as(old(self)),
    {
        let index = self.fields.len();
        self.fields.push(Field { name, kind, access, dirty: false });
        index
    }

    /// Adds a field after those there are, unchanged, and picks the control
    /// that shows it in this window.
    pub fn add_property(&mut self, name: String, kind: PropertyKind, access: Access) -> (widget:
        Widget)
        ensures
            widget == widget_of(kind, access, old(self).kind()),
            final(self).fields() == old(self).fields().push(
                Field { name, kind, access, dirty: false },
            ),
            final(self).same_frame_as(old(self)),
    {
        let widget = property_widget(kind, access, self.type_);
        self.add(name, kind, access);
        widget
    }

    /// The fields.
    pub fn widgets(&self) -> (fields: &Vec<Field>)
        ensures
            fields@ == self.fields(),
    {
        &self.fields
    }

    /// Whether any field was changed.
    pub fn is_dirty(&self) -> (dirty: bool)
        ensures
            dirty == self.dirty_flags().contains(true),
            dirty == exists|i: int| 0 <= i < self.fields().len() && (#[trigger] self.fields()[i]).dirty,
    {
        let mut i: usize = 0;
        while i < self.fields.len()
            invariant
                0 <= i <= self.fields.len(),
                forall|j: int| 0 <= j < i ==> !(#[trigger] self.fields()[j]).dirty,
            decreases self.fields.len() - i,
        {
            if self.fields[i].dirty {
                assert(self.dirty_flags()[i as int]);
                return true;
            }
            i = i + 1;
        }
        assert(!self.dirty_flags().contains(true)) by {
            if self.dirty_flags().contains(true) {
                let j = choose|j: int|
                    0 <= j < self.dirty_flags().len() && self.dirty_flags()[j] == true;
                assert(self.fields()[j].dirty);
            }
        }
        false
    }

    /// Records whether field `index` differs from the value the window
    /// opened with. Says whether it did: it does not where there is no such
    /// field, or the field cannot be changed, and then nothing is recorded.
    pub fn mark(&mut self, index: usize, changed: bool) -> (recorded: bool)
        ensures
            recorded == (index < old(self).fields().len() && old(self).fields()[index as int].access
                == Access::ReadWrite),
            recorded ==> final(self).fields() == old(self).fields().update(
                index as int,
                Field { dirty: changed, ..old(self).fields()[index as int] },
            ),
            !recorded ==> final(self).fields() == old(self).fields(),
            final(self).same_frame_as(old(self)),
    {
        if index >= self.fields.len() {
            return false;
        }
        match self.fields[index].access {
            Access::ReadOnly => false,
            Access::ReadWrite => {
                self.fields[index].dirty = changed;
                assert(self.fields() =~= old(self).fields().update(
                    index as int,
                    Field { dirty: changed, ..old(self).fields()[index as int] },
                ));
                true
            },
        }
    }

    /// Takes every field for unchanged, as after a reset to the values the
    /// window opened with.
    pub fn reset(&mut self)
        ensures
            final(self).fields().len() == old(self).fields().len(),
            forall|i: int|
                0 <= i < old(self).fields().len() ==> #[trigger] final(self).fields()[i] == (Field {
                    dirty: false,
                    ..old(self).fields()[i]
                }),
            final(self).same_frame_as(old(self)),
    {
        let n = self.fields.len();
        let mut i: usize = 0;
        while i < n
            invariant
                0 <= i <= n,
                n == self.fields.len(),
                self.fields().len() == old(self).fields().len(),
                forall|j: int|
                    0 <= j < i ==> #[trigger] self.fields()[j] == (Field {
                        dirty: false,
                        ..old(self).fields()[j]
                    }),
                forall|j: int| i <= j < n ==> #[trigger] self.fields()[j] == old(self).fields()[j],
                self.same_frame_as(old(self)),
            decreases n - i,
        {
            self.fields[i].dirty = false;
            i = i + 1;
        }
    }

    /// The title to show: the window's title, and a star after it while a
    /// field is changed.
    pub fn shown_title(&self) -> (shown: String)
        ensures
            shown@ == if self.dirty_flags().contains(true) {
                self.title_text() + seq!['*']
            } else {
                self.title_text()
            },
    {
        let mut shown = self.title.clone();
        if self.is_dirty() {
            proof {
                reveal_strlit("*");
            }
            shown.append("*");
            assert("*"@ =~= seq!['*']);
        }
        shown
    }
}

} // verus!
