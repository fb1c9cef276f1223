use vstd::prelude::*;
use vstd::string::*;
use crate::fmt::{decimal, push_char, push_decimal};

verus! {

/// Identifier of a widget on the canvas.
#[derive(Clone, Copy, Debug, PartialEq, Eq, PartialOrd, Ord, Hash, Structural)]
pub struct WidgetId(pub u64);

impl WidgetId {
    pub fn new(id: u64) -> (r: Self)
        ensures
            r.0 == id,
    {
        WidgetId(id)
    }

    /// Draw order derived from the id (the id truncated to `i32`).
    pub fn as_z(&self) -> (z: i32)
        ensures
            z == self.0 as i32,
    {
        self.0 as i32
    }

    /// The id in decimal notation.
    pub fn to_string(&self) -> (s: String)
        ensures
            s@ == decimal(self.0 as nat),
    {
        let mut s = String::new();
        push_decimal(&mut s, self.0 as u128);
        s
    }
}

/// The screen area a widget is docked in.
#[derive(Clone, Copy, Debug, PartialEq, Eq, Structural)]
pub enum DockArea {
    Free,
    Top,
    Bottom,
    Left,
    Right,
    Center,
}

impl Default for DockArea {
    fn default() -> (r: Self)
        ensures
            r == DockArea::Free,
    {
        DockArea::Free
    }
}

/// Palette category of a widget kind.
#[derive(Clone, Copy, Debug, PartialEq, Eq, Hash, Structural)]
pub enum WidgetCategory {
    Basic,
    Input,
    Display,
    Containers,
    Advanced,
}

/// The categories in display order.
pub open spec fn spec_all_categories() -> Seq<WidgetCategory> {
    seq![
        WidgetCategory::Basic,
        WidgetCategory::Input,
        WidgetCategory::Display,
        WidgetCategory::Containers,
        WidgetCategory::Advanced,
    ]
}

impl WidgetCategory {
    pub open spec fn spec_display_name(self) -> Seq<char> {
        match self {
            WidgetCategory::Basic => "Basic"@,
            WidgetCategory::Input => "Input"@,
            WidgetCategory::Display => "Display"@,
            WidgetCategory::Containers => "Containers"@,
            WidgetCategory::Advanced => "Advanced"@,
        }
    }

    /// Returns all categories in display order.
    pub fn all() -> (r: &'static [WidgetCategory])
        ensures
            r@ == spec_all_categories(),
    {
        &[
            WidgetCategory::Basic,
            WidgetCategory::Input,
            WidgetCategory::Display,
            WidgetCategory::Containers,
            WidgetCategory::Advanced,
        ]
    }

    /// Returns the display name of this category.
    pub fn display_name(&self) -> (r: &'static str)
        ensures
            r@ == self.spec_display_name(),
    {
        match self {
            WidgetCategory::Basic => "Basic",
            WidgetCategory::Input => "Input",
            WidgetCategory::Display => "Display",
            WidgetCategory::Containers => "Containers",
            WidgetCategory::Advanced => "Advanced",
        }
    }

    /// Whether this category is open by default in the palette: all but `Advanced`.
    pub fn default_open(&self) -> (r: bool)
        ensures
            r == !(*self is Advanced),
    {
        !matches!(self, WidgetCategory::Advanced)
    }
}

/// The kinds of widget that can be placed on the canvas.
#[derive(Clone, Copy, Debug, PartialEq, Eq, Hash, Structural)]
pub enum WidgetKind {
    MenuButton,
    Label,
    Heading,
    Small,
    Monospace,
    Button,
    ImageTextButton,
    Checkbox,
    TextEdit,
    TextArea,
    Slider,
    ProgressBar,
    RadioGroup,
    Link,
    Hyperlink,
    SelectableLabel,
    ComboBox,
    Separator,
    CollapsingHeader,
    DatePicker,
    AngleSelector,
    Password,
    Tree,
    DragValue,
    Spinner,
    ColorPicker,
    Code,
    Image,
    Placeholder,
    Group,
    ScrollBox,
    TabBar,
    Columns,
    Window,
}

/// Every widget kind, in palette order (grouped by category).
pub open spec fn spec_all_kinds() -> Seq<WidgetKind> {
    seq![
        WidgetKind::Label,
        WidgetKind::Button,
        WidgetKind::ImageTextButton,
        WidgetKind::Checkbox,
        WidgetKind::Link,
        WidgetKind::Hyperlink,
        WidgetKind::SelectableLabel,
        WidgetKind::Separator,
        WidgetKind::TextEdit,
        WidgetKind::TextArea,
        WidgetKind::Password,
        WidgetKind::Slider,
        WidgetKind::DragValue,
        WidgetKind::ComboBox,
        WidgetKind::RadioGroup,
        WidgetKind::DatePicker,
        WidgetKind::AngleSelector,
        WidgetKind::ColorPicker,
        WidgetKind::Heading,
        WidgetKind::Small,
        WidgetKind::Monospace,
        WidgetKind::ProgressBar,
        WidgetKind::Spinner,
        WidgetKind::Image,
        WidgetKind::Placeholder,
        WidgetKind::Group,
        WidgetKind::ScrollBox,
        WidgetKind::Columns,
        WidgetKind::TabBar,
        WidgetKind::Window,
        WidgetKind::CollapsingHeader,
        WidgetKind::MenuButton,
        WidgetKind::Tree,
        WidgetKind::Code,
    ]
}

/// The kinds of a category, in palette order.
pub open spec fn spec_kinds_in(category: WidgetCategory) -> Seq<WidgetKind> {
    spec_all_kinds().filter(|k: WidgetKind| k.spec_category() == category)
}

impl WidgetKind {
    pub open spec fn spec_category(self) -> WidgetCategory {
        match self {
            WidgetKind::Label | WidgetKind::Button | WidgetKind::ImageTextButton
            | WidgetKind::Checkbox | WidgetKind::Link | WidgetKind::Hyperlink
            | WidgetKind::SelectableLabel | WidgetKind::Separator => WidgetCategory::Basic,
            WidgetKind::TextEdit | WidgetKind::TextArea | WidgetKind::Password
            | WidgetKind::Slider | WidgetKind::DragValue | WidgetKind::ComboBox
            | WidgetKind::RadioGroup | WidgetKind::DatePicker | WidgetKind::AngleSelector
            | WidgetKind::ColorPicker => WidgetCategory::Input,
            WidgetKind::Heading | WidgetKind::Small | WidgetKind::Monospace
            | WidgetKind::ProgressBar | WidgetKind::Spinner | WidgetKind::Image
            | WidgetKind::Placeholder => WidgetCategory::Display,
            WidgetKind::Group | WidgetKind::ScrollBox | WidgetKind::Columns
            | WidgetKind::TabBar | WidgetKind::Window
            | WidgetKind::CollapsingHeader => WidgetCategory::Containers,
            WidgetKind::MenuButton | WidgetKind::Tree | WidgetKind::Code => WidgetCategory::Advanced,
        }
    }

    pub open spec fn spec_display_name(self) -> Seq<char> {
        match self {
            WidgetKind::MenuButton => "Menu Button"@,
            WidgetKind::Label => "Label"@,
            WidgetKind::Heading => "Heading"@,
            WidgetKind::Small => "Small"@,
            WidgetKind::Monospace => "Monospace"@,
            WidgetKind::Button => "Button"@,
            WidgetKind::ImageTextButton => "Image + Text Button"@,
            WidgetKind::Checkbox => "Checkbox"@,
            WidgetKind::TextEdit => "TextEdit"@,
            WidgetKind::TextArea => "Text Area"@,
            WidgetKind::Slider => "Slider"@,
            WidgetKind::ProgressBar => "ProgressBar"@,
            WidgetKind::RadioGroup => "Radio Group"@,
            WidgetKind::Link => "Link"@,
            WidgetKind::Hyperlink => "Hyperlink"@,
            WidgetKind::SelectableLabel => "Selectable Label"@,
            WidgetKind::ComboBox => "Combo Box"@,
            WidgetKind::Separator => "Separator"@,
            WidgetKind::CollapsingHeader => "Collapsing Header"@,
            WidgetKind::DatePicker => "Date Picker"@,
            WidgetKind::AngleSelector => "Angle Selector"@,
            WidgetKind::Password => "Password"@,
            WidgetKind::Tree => "Tree"@,
            WidgetKind::DragValue => "Drag Value"@,
            WidgetKind::Spinner => "Spinner"@,
            WidgetKind::ColorPicker => "Color Picker"@,
            WidgetKind::Code => "Code Editor"@,
            WidgetKind::Image => "Image"@,
            WidgetKind::Placeholder => "Placeholder"@,
            WidgetKind::Group => "Group"@,
            WidgetKind::ScrollBox => "Scroll Box"@,
            WidgetKind::TabBar => "Tab Bar"@,
            WidgetKind::Columns => "Columns"@,
            WidgetKind::Window => "Window"@,
        }
    }

    /// Returns the category this widget kind belongs to.
    pub fn category(&self) -> (c: WidgetCategory)
        ensures
            c == self.spec_category(),
    {
        match self {
            WidgetKind::Label | WidgetKind::Button | WidgetKind::ImageTextButton
            | WidgetKind::Checkbox | WidgetKind::Link | WidgetKind::Hyperlink
            | WidgetKind::SelectableLabel | WidgetKind::Separator => WidgetCategory::Basic,
            WidgetKind::TextEdit | WidgetKind::TextArea | WidgetKind::Password
            | WidgetKind::Slider | WidgetKind::DragValue | WidgetKind::ComboBox
            | WidgetKind::RadioGroup | WidgetKind::DatePicker | WidgetKind::AngleSelector
            | WidgetKind::ColorPicker => WidgetCategory::Input,
            WidgetKind::Heading | WidgetKind::Small | WidgetKind::Monospace
            | WidgetKind::ProgressBar | WidgetKind::Spinner | WidgetKind::Image
            | WidgetKind::Placeholder => WidgetCategory::Display,
            WidgetKind::Group | WidgetKind::ScrollBox | WidgetKind::Columns
            | WidgetKind::TabBar | WidgetKind::Window
            | WidgetKind::CollapsingHeader => WidgetCategory::Containers,
            WidgetKind::MenuButton | WidgetKind::Tree | WidgetKind::Code => WidgetCategory::Advanced,
        }
    }

    /// Returns the display name of this widget kind (used in the palette).
    pub fn display_name(&self) -> (r: &'static str)
        ensures
            r@ == self.spec_display_name(),
    {
        match self {
            WidgetKind::MenuButton => "Menu Button",
            WidgetKind::Label => "Label",
            WidgetKind::Heading => "Heading",
            WidgetKind::Small => "Small",
            WidgetKind::Monospace => "Monospace",
            WidgetKind::Button => "Button",
            WidgetKind::ImageTextButton => "Image + Text Button",
            WidgetKind::Checkbox => "Checkbox",
            WidgetKind::TextEdit => "TextEdit",
            WidgetKind::TextArea => "Text Area",
            WidgetKind::Slider => "Slider",
            WidgetKind::ProgressBar => "ProgressBar",
            WidgetKind::RadioGroup => "Radio Group",
            WidgetKind::Link => "Link",
            WidgetKind::Hyperlink => "Hyperlink",
            WidgetKind::SelectableLabel => "Selectable Label",
            WidgetKind::ComboBox => "Combo Box",
            WidgetKind::Separator => "Separator",
            WidgetKind::CollapsingHeader => "Collapsing Header",
            WidgetKind::DatePicker => "Date Picker",
            WidgetKind::AngleSelector => "Angle Selector",
            WidgetKind::Password => "Password",
            WidgetKind::Tree => "Tree",
            WidgetKind::DragValue => "Drag Value",
            WidgetKind::Spinner => "Spinner",
            WidgetKind::ColorPicker => "Color Picker",
            WidgetKind::Code => "Code Editor",
            WidgetKind::Image => "Image",
            WidgetKind::Placeholder => "Placeholder",
            WidgetKind::Group => "Group",
            WidgetKind::ScrollBox => "Scroll Box",
            WidgetKind::TabBar => "Tab Bar",
            WidgetKind::Columns => "Columns",
            WidgetKind::Window => "Window",
        }
    }

    /// Returns all widget kinds, in palette order.
    pub fn all() -> (r: &'static [WidgetKind])
        ensures
            r@ == spec_all_kinds(),
    {
        &[
            WidgetKind::Label,
            WidgetKind::Button,
            WidgetKind::ImageTextButton,
            WidgetKind::Checkbox,
            WidgetKind::Link,
            WidgetKind::Hyperlink,
            WidgetKind::SelectableLabel,
            WidgetKind::Separator,
            WidgetKind::TextEdit,
            WidgetKind::TextArea,
            WidgetKind::Password,
            WidgetKind::Slider,
            WidgetKind::DragValue,
            WidgetKind::ComboBox,
            WidgetKind::RadioGroup,
            WidgetKind::DatePicker,
            WidgetKind::AngleSelector,
            WidgetKind::ColorPicker,
            WidgetKind::Heading,
            WidgetKind::Small,
            WidgetKind::Monospace,
            WidgetKind::ProgressBar,
            WidgetKind::Spinner,
            WidgetKind::Image,
            WidgetKind::Placeholder,
            WidgetKind::Group,
            WidgetKind::ScrollBox,
            WidgetKind::Columns,
            WidgetKind::TabBar,
            WidgetKind::Window,
            WidgetKind::CollapsingHeader,
            WidgetKind::MenuButton,
            WidgetKind::Tree,
            WidgetKind::Code,
        ]
    }

    /// Returns the widget kinds of a category, in palette order.
    pub fn widgets_in_category(category: WidgetCategory) -> (r: Vec<WidgetKind>)
        ensures
            r@ == spec_kinds_in(category),
    {
        let all = Self::all();
        let ghost pred = |k: WidgetKind| k.spec_category() == category;
        let mut r: Vec<WidgetKind> = Vec::new();
        let mut i: usize = 0;
        while i < all.len()
            invariant
                i <= all@.len(),
                all@ == spec_all_kinds(),
                pred == (|k: WidgetKind| k.spec_category() == category),
                r@ == all@.take(i as int).filter(pred),
            decreases all@.len() - i,
        {
            let k = all[i];
            let ghost t = all@.take(i as int + 1);
            assert(t.drop_last() =~= all@.take(i as int));
            assert(t.last() == k);
            reveal_with_fuel(Seq::filter, 1);
            assert(t.filter(pred) == if pred(k) {
                all@.take(i as int).filter(pred).push(k)
            } else {
                all@.take(i as int).filter(pred)
            });
            if k.category() == category {
                r.push(k);
            }
            i = i + 1;
        }
        assert(all@.take(all@.len() as int) =~= all@);
        r
    }
}


/// A position or an extent on the canvas, in tenths of a logical point
/// (the precision at which generated code states geometry).
#[derive(Clone, Copy, Debug, PartialEq, Eq, Structural)]
pub struct Vec2 {
    pub x: i64,
    pub y: i64,
}

/// Editable properties of a widget. `value`, `min` and `max` are in thousandths.
#[derive(Debug)]
pub struct WidgetProps {
    pub text: String,
    pub checked: bool,
    pub value: i64,
    pub min: i64,
    pub max: i64,
    pub items: Vec<String>,
    pub selected: usize,
    pub url: String,
    pub year: i32,
    pub month: u32,
    pub day: u32,
    pub icon: String,
    pub color: [u8; 4],
    pub tooltip: String,
    pub horizontal: bool,
    pub enabled: bool,
    pub columns: usize,
}

/// The mathematical value of `WidgetProps`.
pub struct PropsView {
    pub text: Seq<char>,
    pub checked: bool,
    pub value: int,
    pub min: int,
    pub max: int,
    pub items: Seq<Seq<char>>,
    pub selected: nat,
    pub url: Seq<char>,
    pub year: int,
    pub month: nat,
    pub day: nat,
    pub icon: Seq<char>,
    pub color: Seq<u8>,
    pub tooltip: Seq<char>,
    pub horizontal: bool,
    pub enabled: bool,
    pub columns: nat,
}

/// The views of a list of strings.
pub open spec fn strings_view(v: Seq<String>) -> Seq<Seq<char>> {
    v.map_values(|s: String| s@)
}

impl View for WidgetProps {
    type V = PropsView;

    open spec fn view(&self) -> PropsView {
        PropsView {
            text: self.text@,
            checked: self.checked,
            value: self.value as int,
            min: self.min as int,
            max: self.max as int,
            items: strings_view(self.items@),
            selected: self.selected as nat,
            url: self.url@,
            year: self.year as int,
            month: self.month as nat,
            day: self.day as nat,
            icon: self.icon@,
            color: self.color@,
            tooltip: self.tooltip@,
            horizontal: self.horizontal,
            enabled: self.enabled,
            columns: self.columns as nat,
        }
    }
}

/// The icon shown on image buttons by default (a framed picture emoji).
pub open spec fn default_icon() -> Seq<char> {
    seq!['\u{1F5BC}', '\u{FE0F}']
}

/// Properties that every widget starts from.
pub open spec fn spec_base_props() -> PropsView {
    PropsView {
        text: "Label"@,
        checked: false,
        value: 500,
        min: 0,
        max: 1000,
        items: Seq::empty(),
        selected: 0,
        url: "https://example.com"@,
        year: 2024,
        month: 1,
        day: 1,
        icon: default_icon(),
        color: seq![100u8, 149u8, 237u8, 255u8],
        tooltip: Seq::empty(),
        horizontal: false,
        enabled: true,
        columns: 2,
    }
}

fn icon_string() -> (s: String)
    ensures
        s@ == default_icon(),
{
    let mut s = String::new();
    push_char(&mut s, '\u{1F5BC}');
    push_char(&mut s, '\u{FE0F}');
    s
}

impl Default for WidgetProps {
    fn default() -> (r: Self)
        ensures
            r@ == spec_base_props(),
    {
        let r = WidgetProps {
            text: "Label".to_owned(),
            checked: false,
            value: 500,
            min: 0,
            max: 1000,
            items: Vec::new(),
            selected: 0,
            url: "https://example.com".to_owned(),
            year: 2024,
            month: 1,
            day: 1,
            icon: icon_string(),
            color: [100, 149, 237, 255],
            tooltip: String::new(),
            horizontal: false,
            enabled: true,
            columns: 2,
        };
        assert(r@.items =~= Seq::<Seq<char>>::empty());
        assert(r@.color =~= seq![100u8, 149u8, 237u8, 255u8]);
        r
    }
}


/// Default size of each widget kind, in whole points (width, height).
pub open spec fn spec_default_size_points(k: WidgetKind) -> (int, int) {
    match k {
            WidgetKind::MenuButton => (180, 28),
            WidgetKind::Label => (140, 24),
            WidgetKind::Button => (160, 32),
            WidgetKind::ImageTextButton => (200, 36),
            WidgetKind::Checkbox => (160, 28),
            WidgetKind::TextEdit => (220, 36),
            WidgetKind::Slider => (220, 24),
            WidgetKind::ProgressBar => (220, 20),
            WidgetKind::RadioGroup => (200, 80),
            WidgetKind::Link => (160, 20),
            WidgetKind::Hyperlink => (200, 20),
            WidgetKind::SelectableLabel => (180, 24),
            WidgetKind::ComboBox => (220, 28),
            WidgetKind::Separator => (220, 8),
            WidgetKind::CollapsingHeader => (260, 80),
            WidgetKind::DatePicker => (200, 28),
            WidgetKind::AngleSelector => (220, 28),
            WidgetKind::Password => (220, 36),
            WidgetKind::Tree => (260, 200),
            WidgetKind::TextArea => (280, 120),
            WidgetKind::DragValue => (180, 24),
            WidgetKind::Spinner => (32, 32),
            WidgetKind::ColorPicker => (200, 28),
            WidgetKind::Code => (300, 150),
            WidgetKind::Heading => (200, 32),
            WidgetKind::Small => (120, 20),
            WidgetKind::Monospace => (140, 20),
            WidgetKind::Image => (150, 150),
            WidgetKind::Placeholder => (200, 100),
            WidgetKind::Group => (250, 150),
            WidgetKind::ScrollBox => (200, 150),
            WidgetKind::TabBar => (300, 32),
            WidgetKind::Columns => (300, 120),
            WidgetKind::Window => (280, 180),
    }
}

/// Default properties of each widget kind.
pub open spec fn spec_default_props(k: WidgetKind) -> PropsView {
    let base = spec_base_props();
    match k {
            WidgetKind::MenuButton => PropsView { text: "Menu"@, items: seq!["First"@, "Second"@, "Third"@], selected: 0, ..base },
            WidgetKind::Label => PropsView { text: "Label"@, ..base },
            WidgetKind::Button => PropsView { text: "Button"@, ..base },
            WidgetKind::ImageTextButton => PropsView { text: "Button"@, icon: default_icon(), ..base },
            WidgetKind::Checkbox => PropsView { text: "Checkbox"@, ..base },
            WidgetKind::TextEdit => PropsView { text: "Type here"@, ..base },
            WidgetKind::Slider => PropsView { text: "Value"@, min: 0, max: 100000, value: 42000, checked: false, ..base },
            WidgetKind::ProgressBar => PropsView { text: ""@, value: 250, min: 0, max: 1000, checked: false, ..base },
            WidgetKind::RadioGroup => PropsView { text: "Radio Group"@, items: seq!["Option A"@, "Option B"@, "Option C"@], selected: 0, ..base },
            WidgetKind::Link => PropsView { text: "Link text"@, ..base },
            WidgetKind::Hyperlink => PropsView { text: "Open website"@, url: "https://example.com"@, ..base },
            WidgetKind::SelectableLabel => PropsView { text: "Selectable"@, checked: false, ..base },
            WidgetKind::ComboBox => PropsView { text: "Choose one"@, items: seq!["Red"@, "Green"@, "Blue"@], selected: 0, ..base },
            WidgetKind::Separator => base,
            WidgetKind::CollapsingHeader => PropsView { text: "Section"@, checked: true, ..base },
            WidgetKind::DatePicker => PropsView { text: "Pick a date"@, year: 2025, month: 1, day: 1, ..base },
            WidgetKind::AngleSelector => PropsView { text: "Angle (deg)"@, min: 0, max: 360000, value: 45000, ..base },
            WidgetKind::Password => PropsView { text: "password"@, ..base },
            WidgetKind::Tree => PropsView { text: "Tree"@, items: seq!["Animals"@, "  Mammals"@, "    Dogs"@, "    Cats"@, "  Birds"@, "Plants"@, "  Trees"@, "  Flowers"@], ..base },
            WidgetKind::TextArea => PropsView { text: "Multi-line\ntext here"@, ..base },
            WidgetKind::DragValue => PropsView { text: "Value"@, value: 42000, min: 0, max: 100000, ..base },
            WidgetKind::Spinner => base,
            WidgetKind::ColorPicker => PropsView { text: "Color"@, color: seq![100u8, 149u8, 237u8, 255u8], ..base },
            WidgetKind::Code => PropsView { text: "fn main() {\n    println!(\"Hello\");\n}"@, ..base },
            WidgetKind::Heading => PropsView { text: "Heading"@, ..base },
            WidgetKind::Small => PropsView { text: "Small text"@, ..base },
            WidgetKind::Monospace => PropsView { text: "code_value"@, ..base },
            WidgetKind::Image => PropsView { text: "image.png"@, url: "file://image.png"@, ..base },
            WidgetKind::Placeholder => PropsView { text: "Placeholder"@, color: seq![128u8, 128u8, 128u8, 128u8], ..base },
            WidgetKind::Group => PropsView { text: "Group"@, ..base },
            WidgetKind::ScrollBox => PropsView { text: "Scroll content here..."@, ..base },
            WidgetKind::TabBar => PropsView { items: seq!["Tab 1"@, "Tab 2"@, "Tab 3"@], selected: 0, ..base },
            WidgetKind::Columns => PropsView { text: "Column content"@, columns: 2, ..base },
            WidgetKind::Window => PropsView { text: "Window Title"@, ..base },
    }
}

impl WidgetKind {
    /// Returns the default size (in tenths of a point) of a widget of this kind.
    pub fn default_size(&self) -> (r: Vec2)
        ensures
            r.x == 10 * spec_default_size_points(*self).0,
            r.y == 10 * spec_default_size_points(*self).1,
    {
        let (w, h): (i64, i64) = match self {
            WidgetKind::MenuButton => (180, 28),
            WidgetKind::Label => (140, 24),
            WidgetKind::Button => (160, 32),
            WidgetKind::ImageTextButton => (200, 36),
            WidgetKind::Checkbox => (160, 28),
            WidgetKind::TextEdit => (220, 36),
            WidgetKind::Slider => (220, 24),
            WidgetKind::ProgressBar => (220, 20),
            WidgetKind::RadioGroup => (200, 80),
            WidgetKind::Link => (160, 20),
            WidgetKind::Hyperlink => (200, 20),
            WidgetKind::SelectableLabel => (180, 24),
            WidgetKind::ComboBox => (220, 28),
            WidgetKind::Separator => (220, 8),
            WidgetKind::CollapsingHeader => (260, 80),
            WidgetKind::DatePicker => (200, 28),
            WidgetKind::AngleSelector => (220, 28),
            WidgetKind::Password => (220, 36),
            WidgetKind::Tree => (260, 200),
            WidgetKind::TextArea => (280, 120),
            WidgetKind::DragValue => (180, 24),
            WidgetKind::Spinner => (32, 32),
            WidgetKind::ColorPicker => (200, 28),
            WidgetKind::Code => (300, 150),
            WidgetKind::Heading => (200, 32),
            WidgetKind::Small => (120, 20),
            WidgetKind::Monospace => (140, 20),
            WidgetKind::Image => (150, 150),
            WidgetKind::Placeholder => (200, 100),
            WidgetKind::Group => (250, 150),
            WidgetKind::ScrollBox => (200, 150),
            WidgetKind::TabBar => (300, 32),
            WidgetKind::Columns => (300, 120),
            WidgetKind::Window => (280, 180),
        };
        Vec2 { x: 10 * w, y: 10 * h }
    }

    /// Returns the default properties of a widget of this kind.
    pub fn default_props(&self) -> (r: WidgetProps)
        ensures
            r@ == spec_default_props(*self),
    {
        let mut p = WidgetProps::default();
        match self {
            WidgetKind::MenuButton => { p.text = "Menu".to_owned(); p.items = vec!["First".to_owned(), "Second".to_owned(), "Third".to_owned()]; p.selected = 0; }
            WidgetKind::Label => { p.text = "Label".to_owned(); }
            WidgetKind::Button => { p.text = "Button".to_owned(); }
            WidgetKind::ImageTextButton => { p.text = "Button".to_owned(); p.icon = icon_string(); }
            WidgetKind::Checkbox => { p.text = "Checkbox".to_owned(); }
            WidgetKind::TextEdit => { p.text = "Type here".to_owned(); }
            WidgetKind::Slider => { p.text = "Value".to_owned(); p.min = 0; p.max = 100000; p.value = 42000; p.checked = false; }
            WidgetKind::ProgressBar => { p.text = "".to_owned(); p.value = 250; p.min = 0; p.max = 1000; p.checked = false; }
            WidgetKind::RadioGroup => { p.text = "Radio Group".to_owned(); p.items = vec!["Option A".to_owned(), "Option B".to_owned(), "Option C".to_owned()]; p.selected = 0; }
            WidgetKind::Link => { p.text = "Link text".to_owned(); }
            WidgetKind::Hyperlink => { p.text = "Open website".to_owned(); p.url = "https://example.com".to_owned(); }
            WidgetKind::SelectableLabel => { p.text = "Selectable".to_owned(); p.checked = false; }
            WidgetKind::ComboBox => { p.text = "Choose one".to_owned(); p.items = vec!["Red".to_owned(), "Green".to_owned(), "Blue".to_owned()]; p.selected = 0; }
            WidgetKind::Separator => {}
            WidgetKind::CollapsingHeader => { p.text = "Section".to_owned(); p.checked = true; }
            WidgetKind::DatePicker => { p.text = "Pick a date".to_owned(); p.year = 2025; p.month = 1; p.day = 1; }
            WidgetKind::AngleSelector => { p.text = "Angle (deg)".to_owned(); p.min = 0; p.max = 360000; p.value = 45000; }
            WidgetKind::Password => { p.text = "password".to_owned(); }
            WidgetKind::Tree => { p.text = "Tree".to_owned(); p.items = vec!["Animals".to_owned(), "  Mammals".to_owned(), "    Dogs".to_owned(), "    Cats".to_owned(), "  Birds".to_owned(), "Plants".to_owned(), "  Trees".to_owned(), "  Flowers".to_owned()]; }
            WidgetKind::TextArea => { p.text = "Multi-line\ntext here".to_owned(); }
            WidgetKind::DragValue => { p.text = "Value".to_owned(); p.value = 42000; p.min = 0; p.max = 100000; }
            WidgetKind::Spinner => {}
            WidgetKind::ColorPicker => { p.text = "Color".to_owned(); p.color = [100, 149, 237, 255]; }
            WidgetKind::Code => { p.text = "fn main() {\n    println!(\"Hello\");\n}".to_owned(); }
            WidgetKind::Heading => { p.text = "Heading".to_owned(); }
            WidgetKind::Small => { p.text = "Small text".to_owned(); }
            WidgetKind::Monospace => { p.text = "code_value".to_owned(); }
            WidgetKind::Image => { p.text = "image.png".to_owned(); p.url = "file://image.png".to_owned(); }
            WidgetKind::Placeholder => { p.text = "Placeholder".to_owned(); p.color = [128, 128, 128, 128]; }
            WidgetKind::Group => { p.text = "Group".to_owned(); }
            WidgetKind::ScrollBox => { p.text = "Scroll content here...".to_owned(); }
            WidgetKind::TabBar => { p.items = vec!["Tab 1".to_owned(), "Tab 2".to_owned(), "Tab 3".to_owned()]; p.selected = 0; }
            WidgetKind::Columns => { p.text = "Column content".to_owned(); p.columns = 2; }
            WidgetKind::Window => { p.text = "Window Title".to_owned(); }
        }
        proof {
            assert(p@.items =~= spec_default_props(*self).items);
            assert(p@.color =~= spec_default_props(*self).color);
        }
        p
    }
}


/// How one character is written inside a Rust string literal by `escape`.
pub open spec fn escape_char(c: char) -> Seq<char> {
    if c == '\\' {
        seq!['\\', '\\']
    } else if c == '"' {
        seq!['\\', '"']
    } else {
        seq![c]
    }
}

/// Text with every backslash doubled and every double quote preceded by a backslash.
pub open spec fn escape_spec(s: Seq<char>) -> Seq<char>
    decreases s.len(),
{
    if s.len() == 0 {
        Seq::empty()
    } else {
        escape_spec(s.drop_last()) + escape_char(s.last())
    }
}

/// Appends `s` with backslashes and double quotes escaped.
pub fn push_escaped(out: &mut String, s: &str)
    ensures
        final(out)@ == old(out)@ + escape_spec(s@),
{
    let v = crate::text::to_chars(s);
    let mut i: usize = 0;
    while i < v.len()
        invariant
            v@ == s@,
            i <= v@.len(),
            out@ == old(out)@ + escape_spec(s@.take(i as int)),
        decreases v@.len() - i,
    {
        let c = v[i];
        if c == '\\' {
            push_char(out, '\\');
            push_char(out, '\\');
        } else if c == '"' {
            push_char(out, '\\');
            push_char(out, '"');
        } else {
            push_char(out, c);
        }
        assert(s@.take(i as int + 1).drop_last() =~= s@.take(i as int));
        assert(out@ =~= old(out)@ + escape_spec(s@.take(i as int + 1)));
        i = i + 1;
    }
    assert(s@.take(v@.len() as int) =~= s@);
}

/// Escapes backslashes and double quotes so that the text can stand inside a Rust string literal.
pub fn escape(s: &str) -> (r: String)
    ensures
        r@ == escape_spec(s@),
{
    let mut out = String::new();
    push_escaped(&mut out, s);
    out
}

/// Reads back the body of a Rust string literal in which `\\` and `\"` are the only escapes:
/// a backslash takes the next character literally.
pub open spec fn unescape_spec(s: Seq<char>) -> Seq<char>
    decreases s.len(),
{
    if s.len() == 0 {
        Seq::empty()
    } else if s[0] == '\\' && s.len() >= 2 {
        seq![s[1]] + unescape_spec(s.subrange(2, s.len() as int))
    } else {
        seq![s[0]] + unescape_spec(s.subrange(1, s.len() as int))
    }
}

/// Escaping distributes over concatenation.
pub proof fn lemma_escape_concat(a: Seq<char>, b: Seq<char>)
    ensures
        escape_spec(a + b) == escape_spec(a) + escape_spec(b),
    decreases b.len(),
{
    if b.len() == 0 {
        assert(a + b =~= a);
        assert(escape_spec(a) + escape_spec(b) =~= escape_spec(a));
    } else {
        lemma_escape_concat(a, b.drop_last());
        assert((a + b).drop_last() =~= a + b.drop_last());
        assert((a + b).last() == b.last());
        assert(escape_spec(a + b) =~= escape_spec(a) + escape_spec(b));
    }
}

/// Reading back an escaped text gives the text itself: `escape` loses nothing and
/// the generated literal denotes exactly the text that was escaped.
pub proof fn lemma_unescape_escape(s: Seq<char>)
    ensures
        unescape_spec(escape_spec(s)) == s,
    decreases s.len(),
{
    if s.len() > 0 {
        let rest = s.subrange(1, s.len() as int);
        assert(s =~= seq![s[0]] + rest);
        lemma_escape_concat(seq![s[0]], rest);
        assert(seq![s[0]].drop_last() =~= Seq::<char>::empty());
        assert(escape_spec(seq![s[0]].drop_last()) =~= Seq::<char>::empty());
        assert(escape_spec(seq![s[0]]) =~= escape_char(s[0]));
        lemma_unescape_escape(rest);
        let e = escape_spec(s);
        assert(e =~= escape_char(s[0]) + escape_spec(rest));
        let k = escape_char(s[0]).len() as int;
        assert(e.subrange(k, e.len() as int) =~= escape_spec(rest));
    }
}


/// Copies a list of strings.
pub fn clone_strings(v: &Vec<String>) -> (r: Vec<String>)
    ensures
        strings_view(r@) == strings_view(v@),
{
    let mut r: Vec<String> = Vec::new();
    let mut i: usize = 0;
    while i < v.len()
        invariant
            i <= v@.len(),
            r@.len() == i,
            forall|j: int| 0 <= j < i ==> #[trigger] r@[j]@ == v@[j]@,
        decreases v@.len() - i,
    {
        let c = v[i].clone();
        r.push(c);
        i = i + 1;
    }
    assert(strings_view(r@) =~= strings_view(v@));
    r
}

impl Clone for WidgetProps {
    fn clone(&self) -> (r: Self)
        ensures
            r@ == self@,
    {
        WidgetProps {
            text: self.text.clone(),
            checked: self.checked,
            value: self.value,
            min: self.min,
            max: self.max,
            items: clone_strings(&self.items),
            selected: self.selected,
            url: self.url.clone(),
            year: self.year,
            month: self.month,
            day: self.day,
            icon: self.icon.clone(),
            color: self.color,
            tooltip: self.tooltip.clone(),
            horizontal: self.horizontal,
            enabled: self.enabled,
            columns: self.columns,
        }
    }
}

/// A widget placed on the canvas.
#[derive(Debug)]
pub struct Widget {
    pub id: WidgetId,
    pub kind: WidgetKind,
    /// Top-left corner, relative to the area the widget is docked in.
    pub pos: Vec2,
    /// Size on the canvas.
    pub size: Vec2,
    /// Draw order.
    pub z: i32,
    pub area: DockArea,
    pub props: WidgetProps,
}

/// The mathematical value of a `Widget`.
pub struct WidgetView {
    pub id: WidgetId,
    pub kind: WidgetKind,
    pub pos: Vec2,
    pub size: Vec2,
    pub z: i32,
    pub area: DockArea,
    pub props: PropsView,
}

impl View for Widget {
    type V = WidgetView;

    open spec fn view(&self) -> WidgetView {
        WidgetView {
            id: self.id,
            kind: self.kind,
            pos: self.pos,
            size: self.size,
            z: self.z,
            area: self.area,
            props: self.props@,
        }
    }
}

impl Clone for Widget {
    fn clone(&self) -> (r: Self)
        ensures
            r@ == self@,
    {
        Widget {
            id: self.id,
            kind: self.kind,
            pos: self.pos,
            size: self.size,
            z: self.z,
            area: self.area,
            props: self.props.clone(),
        }
    }
}

/// The views of a list of widgets.
pub open spec fn widgets_view(v: Seq<Widget>) -> Seq<WidgetView> {
    v.map_values(|w: Widget| w@)
}


/// Every widget kind is listed in the palette, exactly once.
pub proof fn lemma_kind_listed_once(k: WidgetKind)
    ensures
        spec_all_kinds().contains(k),
        spec_all_kinds().no_duplicates(),
{
    let all = spec_all_kinds();
    match k {
        WidgetKind::Label => assert(all[0] == k),
        WidgetKind::Button => assert(all[1] == k),
        WidgetKind::ImageTextButton => assert(all[2] == k),
        WidgetKind::Checkbox => assert(all[3] == k),
        WidgetKind::Link => assert(all[4] == k),
        WidgetKind::Hyperlink => assert(all[5] == k),
        WidgetKind::SelectableLabel => assert(all[6] == k),
        WidgetKind::Separator => assert(all[7] == k),
        WidgetKind::TextEdit => assert(all[8] == k),
        WidgetKind::TextArea => assert(all[9] == k),
        WidgetKind::Password => assert(all[10] == k),
        WidgetKind::Slider => assert(all[11] == k),
        WidgetKind::DragValue => assert(all[12] == k),
        WidgetKind::ComboBox => assert(all[13] == k),
        WidgetKind::RadioGroup => assert(all[14] == k),
        WidgetKind::DatePicker => assert(all[15] == k),
        WidgetKind::AngleSelector => assert(all[16] == k),
        WidgetKind::ColorPicker => assert(all[17] == k),
        WidgetKind::Heading => assert(all[18] == k),
        WidgetKind::Small => assert(all[19] == k),
        WidgetKind::Monospace => assert(all[20] == k),
        WidgetKind::ProgressBar => assert(all[21] == k),
        WidgetKind::Spinner => assert(all[22] == k),
        WidgetKind::Image => assert(all[23] == k),
        WidgetKind::Placeholder => assert(all[24] == k),
        WidgetKind::Group => assert(all[25] == k),
        WidgetKind::ScrollBox => assert(all[26] == k),
        WidgetKind::Columns => assert(all[27] == k),
        WidgetKind::TabBar => assert(all[28] == k),
        WidgetKind::Window => assert(all[29] == k),
        WidgetKind::CollapsingHeader => assert(all[30] == k),
        WidgetKind::MenuButton => assert(all[31] == k),
        WidgetKind::Tree => assert(all[32] == k),
        WidgetKind::Code => assert(all[33] == k),
    }
    assert forall|i: int, j: int| 0 <= i < all.len() && 0 <= j < all.len() && i != j implies all[i] != all[j] by {
        assert(kind_ordinal(all[i]) == i);
        assert(kind_ordinal(all[j]) == j);
    }
}

/// The position of a kind in the palette.
spec fn kind_ordinal(k: WidgetKind) -> int {
    match k {
        WidgetKind::Label => 0,
        WidgetKind::Button => 1,
        WidgetKind::ImageTextButton => 2,
        WidgetKind::Checkbox => 3,
        WidgetKind::Link => 4,
        WidgetKind::Hyperlink => 5,
        WidgetKind::SelectableLabel => 6,
        WidgetKind::Separator => 7,
        WidgetKind::TextEdit => 8,
        WidgetKind::TextArea => 9,
        WidgetKind::Password => 10,
        WidgetKind::Slider => 11,
        WidgetKind::DragValue => 12,
        WidgetKind::ComboBox => 13,
        WidgetKind::RadioGroup => 14,
        WidgetKind::DatePicker => 15,
        WidgetKind::AngleSelector => 16,
        WidgetKind::ColorPicker => 17,
        WidgetKind::Heading => 18,
        WidgetKind::Small => 19,
        WidgetKind::Monospace => 20,
        WidgetKind::ProgressBar => 21,
        WidgetKind::Spinner => 22,
        WidgetKind::Image => 23,
        WidgetKind::Placeholder => 24,
        WidgetKind::Group => 25,
        WidgetKind::ScrollBox => 26,
        WidgetKind::Columns => 27,
        WidgetKind::TabBar => 28,
        WidgetKind::Window => 29,
        WidgetKind::CollapsingHeader => 30,
        WidgetKind::MenuButton => 31,
        WidgetKind::Tree => 32,
        WidgetKind::Code => 33,
    }
}

/// Every widget kind belongs to one of the categories.
pub proof fn lemma_category_listed(k: WidgetKind)
    ensures
        spec_all_categories().contains(k.spec_category()),
{
    let cs = spec_all_categories();
    match k.spec_category() {
        WidgetCategory::Basic => assert(cs[0] == k.spec_category()),
        WidgetCategory::Input => assert(cs[1] == k.spec_category()),
        WidgetCategory::Display => assert(cs[2] == k.spec_category()),
        WidgetCategory::Containers => assert(cs[3] == k.spec_category()),
        WidgetCategory::Advanced => assert(cs[4] == k.spec_category()),
    }
}

/// The palette groups partition the kinds: a kind is in the group of a category exactly
/// when it is of that category.
pub proof fn lemma_kinds_in_partition(c: WidgetCategory, k: WidgetKind)
    ensures
        spec_kinds_in(c).contains(k) <==> k.spec_category() == c,
{
    broadcast use vstd::seq_lib::group_filter_ensures;

    let pred = |x: WidgetKind| x.spec_category() == c;
    lemma_kind_listed_once(k);
    let all = spec_all_kinds();
    if spec_kinds_in(c).contains(k) {
        let i = choose|i: int| 0 <= i < spec_kinds_in(c).len() && spec_kinds_in(c)[i] == k;
        assert(pred(all.filter(pred)[i]));
    }
    if k.spec_category() == c {
        let i = choose|i: int| 0 <= i < all.len() && all[i] == k;
        assert(all.filter(pred).contains(all[i]));
    }
}

/// Every widget kind starts with a positive width and height.
pub proof fn lemma_default_size_positive(k: WidgetKind)
    ensures
        spec_default_size_points(k).0 > 0,
        spec_default_size_points(k).1 > 0,
{
}

/// Every widget kind starts with its value within its range and, when it has items, with a
/// selected index among them.
pub proof fn lemma_default_props_consistent(k: WidgetKind)
    ensures
        spec_default_props(k).min <= spec_default_props(k).value <= spec_default_props(k).max,
        spec_default_props(k).items.len() > 0 ==> spec_default_props(k).selected < spec_default_props(k).items.len(),
{
}


/// What tells two palette labels apart: the length and the first, second and last characters.
spec fn label_key(s: Seq<char>) -> (int, char, char, char) {
    (s.len() as int, s[0], s[1], s[s.len() - 1])
}

/// Every palette label is non-empty, and a label names exactly one kind: different kinds
/// have different labels.
pub proof fn lemma_display_names_distinct(k1: WidgetKind, k2: WidgetKind)
    ensures
        k1.spec_display_name().len() > 0,
        k1 != k2 ==> k1.spec_display_name() != k2.spec_display_name(),
{
    reveal_strlit("Menu Button");
    reveal_strlit("Label");
    reveal_strlit("Heading");
    reveal_strlit("Small");
    reveal_strlit("Monospace");
    reveal_strlit("Button");
    reveal_strlit("Image + Text Button");
    reveal_strlit("Checkbox");
    reveal_strlit("TextEdit");
    reveal_strlit("Text Area");
    reveal_strlit("Slider");
    reveal_strlit("ProgressBar");
    reveal_strlit("Radio Group");
    reveal_strlit("Link");
    reveal_strlit("Hyperlink");
    reveal_strlit("Selectable Label");
    reveal_strlit("Combo Box");
    reveal_strlit("Separator");
    reveal_strlit("Collapsing Header");
    reveal_strlit("Date Picker");
    reveal_strlit("Angle Selector");
    reveal_strlit("Password");
    reveal_strlit("Tree");
    reveal_strlit("Drag Value");
    reveal_strlit("Spinner");
    reveal_strlit("Color Picker");
    reveal_strlit("Code Editor");
    reveal_strlit("Image");
    reveal_strlit("Placeholder");
    reveal_strlit("Group");
    reveal_strlit("Scroll Box");
    reveal_strlit("Tab Bar");
    reveal_strlit("Columns");
    reveal_strlit("Window");
    if k1 != k2 {
        assert(label_key(k1.spec_display_name()) != label_key(k2.spec_display_name()));
    }
}

/// A sequence whose elements all satisfy `pred` is its own filter.
proof fn lemma_filter_all(s: Seq<WidgetKind>, pred: spec_fn(WidgetKind) -> bool)
    requires
        forall|i: int| 0 <= i < s.len() ==> pred(#[trigger] s[i]),
    ensures
        s.filter(pred) == s,
    decreases s.len(),
{
    reveal(Seq::filter);
    if s.len() > 0 {
        lemma_filter_all(s.drop_last(), pred);
        assert(pred(s[s.len() - 1]));
        assert(s.drop_last().push(s.last()) =~= s);
    }
}

/// A sequence none of whose elements satisfies `pred` filters to nothing.
proof fn lemma_filter_none(s: Seq<WidgetKind>, pred: spec_fn(WidgetKind) -> bool)
    requires
        forall|i: int| 0 <= i < s.len() ==> !pred(#[trigger] s[i]),
    ensures
        s.filter(pred) == Seq::<WidgetKind>::empty(),
    decreases s.len(),
{
    reveal(Seq::filter);
    if s.len() > 0 {
        lemma_filter_none(s.drop_last(), pred);
        assert(!pred(s[s.len() - 1]));
    }
}

/// The kinds of `all` in `[a, b)` are exactly those of category `c`.
proof fn lemma_group(c: WidgetCategory, a: int, b: int)
    requires
        0 <= a <= b <= spec_all_kinds().len(),
        forall|i: int| a <= i < b ==> (#[trigger] spec_all_kinds()[i]).spec_category() == c,
        forall|i: int| 0 <= i < spec_all_kinds().len() && !(a <= i < b) ==> (#[trigger] spec_all_kinds()[i]).spec_category() != c,
    ensures
        spec_kinds_in(c) == spec_all_kinds().subrange(a, b),
{
    let all = spec_all_kinds();
    let pred = |k: WidgetKind| k.spec_category() == c;
    let (x, y, z) = (all.subrange(0, a), all.subrange(a, b), all.subrange(b, all.len() as int));
    assert(all =~= x + y + z);
    vstd::seq::Seq::filter_distributes_over_add(x + y, z, pred);
    vstd::seq::Seq::filter_distributes_over_add(x, y, pred);
    assert forall|i: int| 0 <= i < x.len() implies !pred(#[trigger] x[i]) by { assert(x[i] == all[i]); }
    assert forall|i: int| 0 <= i < y.len() implies pred(#[trigger] y[i]) by { assert(y[i] == all[i + a]); }
    assert forall|i: int| 0 <= i < z.len() implies !pred(#[trigger] z[i]) by { assert(z[i] == all[i + b]); }
    lemma_filter_none(x, pred);
    lemma_filter_all(y, pred);
    lemma_filter_none(z, pred);
    assert(spec_kinds_in(c) == all.filter(pred));
    assert(Seq::<WidgetKind>::empty() + y + Seq::<WidgetKind>::empty() =~= y);
}

/// The palette groups, taken in category order, make up the whole palette list: 8 basic,
/// 10 input, 7 display, 6 container and 3 advanced kinds.
pub proof fn lemma_groups_make_palette()
    ensures
        spec_kinds_in(WidgetCategory::Basic) + spec_kinds_in(WidgetCategory::Input)
            + spec_kinds_in(WidgetCategory::Display) + spec_kinds_in(WidgetCategory::Containers)
            + spec_kinds_in(WidgetCategory::Advanced) == spec_all_kinds(),
        spec_kinds_in(WidgetCategory::Basic).len() == 8,
        spec_kinds_in(WidgetCategory::Input).len() == 10,
        spec_kinds_in(WidgetCategory::Display).len() == 7,
        spec_kinds_in(WidgetCategory::Containers).len() == 6,
        spec_kinds_in(WidgetCategory::Advanced).len() == 3,
{
    let all = spec_all_kinds();
    assert forall|i: int| 0 <= i < all.len() implies (#[trigger] all[i]).spec_category() == (if i < 8 {
        WidgetCategory::Basic
    } else if i < 18 {
        WidgetCategory::Input
    } else if i < 25 {
        WidgetCategory::Display
    } else if i < 31 {
        WidgetCategory::Containers
    } else {
        WidgetCategory::Advanced
    }) by {}
    lemma_group(WidgetCategory::Basic, 0, 8);
    lemma_group(WidgetCategory::Input, 8, 18);
    lemma_group(WidgetCategory::Display, 18, 25);
    lemma_group(WidgetCategory::Containers, 25, 31);
    lemma_group(WidgetCategory::Advanced, 31, 34);
    assert(all.subrange(0, 8) + all.subrange(8, 18) + all.subrange(18, 25) + all.subrange(25, 31)
        + all.subrange(31, 34) =~= all);
}

} // verus!
