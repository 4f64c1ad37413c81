//! Camera modes: navigation style, projection mode and axis directions,
//! with their integer codes and their names.

use vstd::prelude::*;

use crate::text::str_equal;

verus! {

/// Camera navigation/interaction style.
#[derive(Debug, Clone, Copy, PartialEq, Eq, Structural)]
pub enum NavigationStyle {
    /// Turntable - orbits around target, constrained to up direction.
    Turntable,
    /// Free - unconstrained rotation using camera-local axes.
    Free,
    /// Planar - 2D panning only, no rotation.
    Planar,
    /// Arcball - sphere-mapped rotation (virtual trackball).
    Arcball,
    /// First person - mouse look + WASD movement.
    FirstPerson,
    /// Disabled - all camera controls disabled.
    Disabled,
}

/// The integer code of a navigation style.
pub open spec fn navigation_style_code(s: NavigationStyle) -> u32 {
    match s {
        NavigationStyle::Turntable => 0,
        NavigationStyle::Free => 1,
        NavigationStyle::Planar => 2,
        NavigationStyle::Arcball => 3,
        NavigationStyle::FirstPerson => 4,
        NavigationStyle::Disabled => 5,
    }
}

/// The navigation style of an integer code; every code above 4 means `Disabled`.
pub open spec fn navigation_style_of_code(v: u32) -> NavigationStyle {
    if v == 0 {
        NavigationStyle::Turntable
    } else if v == 1 {
        NavigationStyle::Free
    } else if v == 2 {
        NavigationStyle::Planar
    } else if v == 3 {
        NavigationStyle::Arcball
    } else if v == 4 {
        NavigationStyle::FirstPerson
    } else {
        NavigationStyle::Disabled
    }
}

impl Default for NavigationStyle {
    fn default() -> (r: Self)
        ensures
            r == NavigationStyle::Turntable,
    {
        NavigationStyle::Turntable
    }
}

impl From<u32> for NavigationStyle {
    fn from(v: u32) -> (r: Self) {
        match v {
            0 => NavigationStyle::Turntable,
            1 => NavigationStyle::Free,
            2 => NavigationStyle::Planar,
            3 => NavigationStyle::Arcball,
            4 => NavigationStyle::FirstPerson,
            _ => NavigationStyle::Disabled,
        }
    }
}

impl vstd::std_specs::convert::FromSpecImpl<u32> for NavigationStyle {
    open spec fn obeys_from_spec() -> bool {
        true
    }

    open spec fn from_spec(v: u32) -> Self {
        navigation_style_of_code(v)
    }
}

impl From<NavigationStyle> for u32 {
    fn from(v: NavigationStyle) -> (r: u32) {
        match v {
            NavigationStyle::Turntable => 0,
            NavigationStyle::Free => 1,
            NavigationStyle::Planar => 2,
            NavigationStyle::Arcball => 3,
            NavigationStyle::FirstPerson => 4,
            NavigationStyle::Disabled => 5,
        }
    }
}

impl vstd::std_specs::convert::FromSpecImpl<NavigationStyle> for u32 {
    open spec fn obeys_from_spec() -> bool {
        true
    }

    open spec fn from_spec(v: NavigationStyle) -> u32 {
        navigation_style_code(v)
    }
}


/// Camera projection mode.
#[derive(Debug, Clone, Copy, PartialEq, Eq, Structural)]
pub enum ProjectionMode {
    /// Perspective projection.
    Perspective,
    /// Orthographic projection.
    Orthographic,
}

/// The integer code of a projection mode.
pub open spec fn projection_mode_code(p: ProjectionMode) -> u32 {
    match p {
        ProjectionMode::Perspective => 0,
        ProjectionMode::Orthographic => 1,
    }
}

/// The projection mode of an integer code; every nonzero code means orthographic.
pub open spec fn projection_mode_of_code(v: u32) -> ProjectionMode {
    if v == 0 {
        ProjectionMode::Perspective
    } else {
        ProjectionMode::Orthographic
    }
}

impl Default for ProjectionMode {
    fn default() -> (r: Self)
        ensures
            r == ProjectionMode::Perspective,
    {
        ProjectionMode::Perspective
    }
}

impl From<u32> for ProjectionMode {
    fn from(v: u32) -> (r: Self) {
        match v {
            0 => ProjectionMode::Perspective,
            _ => ProjectionMode::Orthographic,
        }
    }
}

impl vstd::std_specs::convert::FromSpecImpl<u32> for ProjectionMode {
    open spec fn obeys_from_spec() -> bool {
        true
    }

    open spec fn from_spec(v: u32) -> Self {
        projection_mode_of_code(v)
    }
}

impl From<ProjectionMode> for u32 {
    fn from(v: ProjectionMode) -> (r: u32) {
        match v {
            ProjectionMode::Perspective => 0,
            ProjectionMode::Orthographic => 1,
        }
    }
}

impl vstd::std_specs::convert::FromSpecImpl<ProjectionMode> for u32 {
    open spec fn obeys_from_spec() -> bool {
        true
    }

    open spec fn from_spec(v: ProjectionMode) -> u32 {
        projection_mode_code(v)
    }
}

/// Axis direction for up/front vectors.
#[derive(Debug, Clone, Copy, PartialEq, Eq, Structural)]
pub enum AxisDirection {
    /// Positive X axis.
    PosX,
    /// Negative X axis.
    NegX,
    /// Positive Y axis (default up).
    PosY,
    /// Negative Y axis.
    NegY,
    /// Positive Z axis.
    PosZ,
    /// Negative Z axis (default front).
    NegZ,
}

/// The integer code of an axis direction: 0=+X, 1=-X, 2=+Y, 3=-Y, 4=+Z, 5=-Z.
pub open spec fn axis_direction_code(a: AxisDirection) -> u32 {
    match a {
        AxisDirection::PosX => 0,
        AxisDirection::NegX => 1,
        AxisDirection::PosY => 2,
        AxisDirection::NegY => 3,
        AxisDirection::PosZ => 4,
        AxisDirection::NegZ => 5,
    }
}

/// The axis direction of an integer code under the `From<u32>` conversion:
/// every code above 4 means -Z.
pub open spec fn axis_direction_of_code(v: u32) -> AxisDirection {
    if v == 0 {
        AxisDirection::PosX
    } else if v == 1 {
        AxisDirection::NegX
    } else if v == 2 {
        AxisDirection::PosY
    } else if v == 3 {
        AxisDirection::NegY
    } else if v == 4 {
        AxisDirection::PosZ
    } else {
        AxisDirection::NegZ
    }
}

/// The axis direction of a UI index: indices above 5 fall back to +Y.
pub open spec fn axis_direction_of_index(v: u32) -> AxisDirection {
    if v <= 5 {
        axis_direction_of_code(v)
    } else {
        AxisDirection::PosY
    }
}

/// The front direction paired with an up direction (right-handed conventions).
pub open spec fn default_front_of(up: AxisDirection) -> AxisDirection {
    match up {
        AxisDirection::PosY => AxisDirection::NegZ,
        AxisDirection::NegY => AxisDirection::PosZ,
        AxisDirection::PosZ => AxisDirection::PosX,
        AxisDirection::NegZ => AxisDirection::NegX,
        AxisDirection::PosX => AxisDirection::PosY,
        AxisDirection::NegX => AxisDirection::NegY,
    }
}

/// The display name of an axis direction, such as `+X` or `-Z`.
pub open spec fn axis_display_name(a: AxisDirection) -> Seq<char> {
    match a {
        AxisDirection::PosX => "+X"@,
        AxisDirection::NegX => "-X"@,
        AxisDirection::PosY => "+Y"@,
        AxisDirection::NegY => "-Y"@,
        AxisDirection::PosZ => "+Z"@,
        AxisDirection::NegZ => "-Z"@,
    }
}

/// The coordinate axis of a direction (0 for X, 1 for Y, 2 for Z).
pub open spec fn axis_of(a: AxisDirection) -> int {
    axis_direction_code(a) as int / 2
}

/// The direction along the same axis, pointing the other way.
pub open spec fn opposite(a: AxisDirection) -> AxisDirection {
    match a {
        AxisDirection::PosX => AxisDirection::NegX,
        AxisDirection::NegX => AxisDirection::PosX,
        AxisDirection::PosY => AxisDirection::NegY,
        AxisDirection::NegY => AxisDirection::PosY,
        AxisDirection::PosZ => AxisDirection::NegZ,
        AxisDirection::NegZ => AxisDirection::PosZ,
    }
}

impl Default for AxisDirection {
    fn default() -> (r: Self)
        ensures
            r == AxisDirection::PosY,
    {
        AxisDirection::PosY
    }
}

impl From<u32> for AxisDirection {
    fn from(v: u32) -> (r: Self) {
        match v {
            0 => AxisDirection::PosX,
            1 => AxisDirection::NegX,
            2 => AxisDirection::PosY,
            3 => AxisDirection::NegY,
            4 => AxisDirection::PosZ,
            _ => AxisDirection::NegZ,
        }
    }
}

impl vstd::std_specs::convert::FromSpecImpl<u32> for AxisDirection {
    open spec fn obeys_from_spec() -> bool {
        true
    }

    open spec fn from_spec(v: u32) -> Self {
        axis_direction_of_code(v)
    }
}

impl From<AxisDirection> for u32 {
    fn from(v: AxisDirection) -> (r: u32) {
        match v {
            AxisDirection::PosX => 0,
            AxisDirection::NegX => 1,
            AxisDirection::PosY => 2,
            AxisDirection::NegY => 3,
            AxisDirection::PosZ => 4,
            AxisDirection::NegZ => 5,
        }
    }
}

impl vstd::std_specs::convert::FromSpecImpl<AxisDirection> for u32 {
    open spec fn obeys_from_spec() -> bool {
        true
    }

    open spec fn from_spec(v: AxisDirection) -> u32 {
        axis_direction_code(v)
    }
}

impl AxisDirection {
    /// Returns the display name (`+X`, `-X`, `+Y`, `-Y`, `+Z` or `-Z`).
    pub fn name(self) -> (r: &'static str)
        ensures
            r@ == axis_display_name(self),
    {
        match self {
            AxisDirection::PosX => "+X",
            AxisDirection::NegX => "-X",
            AxisDirection::PosY => "+Y",
            AxisDirection::NegY => "-Y",
            AxisDirection::PosZ => "+Z",
            AxisDirection::NegZ => "-Z",
        }
    }

    /// Returns the corresponding front direction for this up direction.
    /// Follows right-hand coordinate system conventions:
    /// +Y up gives -Z front, -Y up gives +Z front, +Z up gives +X front,
    /// -Z up gives -X front, +X up gives +Y front, -X up gives -Y front.
    pub fn default_front_direction(self) -> (r: AxisDirection)
        ensures
            r == default_front_of(self),
    {
        match self {
            AxisDirection::PosY => AxisDirection::NegZ,
            AxisDirection::NegY => AxisDirection::PosZ,
            AxisDirection::PosZ => AxisDirection::PosX,
            AxisDirection::NegZ => AxisDirection::NegX,
            AxisDirection::PosX => AxisDirection::PosY,
            AxisDirection::NegX => AxisDirection::NegY,
        }
    }

    /// Converts from a u32 index (used in UI) to `AxisDirection`.
    /// Order: 0=+X, 1=-X, 2=+Y, 3=-Y, 4=+Z, 5=-Z; any other index gives +Y.
    pub fn from_index(index: u32) -> (r: Self)
        ensures
            r == axis_direction_of_index(index),
    {
        match index {
            0 => AxisDirection::PosX,
            1 => AxisDirection::NegX,
            2 => AxisDirection::PosY,
            3 => AxisDirection::NegY,
            4 => AxisDirection::PosZ,
            5 => AxisDirection::NegZ,
            _ => AxisDirection::PosY,
        }
    }

    /// Converts to a u32 index (used in UI).
    pub fn to_index(self) -> (r: u32)
        ensures
            r == axis_direction_code(self),
    {
        match self {
            AxisDirection::PosX => 0,
            AxisDirection::NegX => 1,
            AxisDirection::PosY => 2,
            AxisDirection::NegY => 3,
            AxisDirection::PosZ => 4,
            AxisDirection::NegZ => 5,
        }
    }
}


/// The snake-case key of a navigation style, as stored in a saved view.
pub open spec fn navigation_style_key(s: NavigationStyle) -> Seq<char> {
    match s {
        NavigationStyle::Turntable => "turntable"@,
        NavigationStyle::Free => "free"@,
        NavigationStyle::Planar => "planar"@,
        NavigationStyle::Arcball => "arcball"@,
        NavigationStyle::FirstPerson => "first_person"@,
        NavigationStyle::Disabled => "none"@,
    }
}

/// The navigation style whose key is `s`, if any.
pub open spec fn navigation_style_by_key(s: Seq<char>) -> Option<NavigationStyle> {
    if s == "turntable"@ {
        Some(NavigationStyle::Turntable)
    } else if s == "free"@ {
        Some(NavigationStyle::Free)
    } else if s == "planar"@ {
        Some(NavigationStyle::Planar)
    } else if s == "arcball"@ {
        Some(NavigationStyle::Arcball)
    } else if s == "first_person"@ {
        Some(NavigationStyle::FirstPerson)
    } else if s == "none"@ {
        Some(NavigationStyle::Disabled)
    } else {
        None
    }
}

/// The snake-case key of a projection mode.
pub open spec fn projection_mode_key(p: ProjectionMode) -> Seq<char> {
    match p {
        ProjectionMode::Perspective => "perspective"@,
        ProjectionMode::Orthographic => "orthographic"@,
    }
}

/// The projection mode whose key is `s`, if any.
pub open spec fn projection_mode_by_key(s: Seq<char>) -> Option<ProjectionMode> {
    if s == "perspective"@ {
        Some(ProjectionMode::Perspective)
    } else if s == "orthographic"@ {
        Some(ProjectionMode::Orthographic)
    } else {
        None
    }
}

/// The snake-case key of an axis direction.
pub open spec fn axis_direction_key(a: AxisDirection) -> Seq<char> {
    match a {
        AxisDirection::PosX => "pos_x"@,
        AxisDirection::NegX => "neg_x"@,
        AxisDirection::PosY => "pos_y"@,
        AxisDirection::NegY => "neg_y"@,
        AxisDirection::PosZ => "pos_z"@,
        AxisDirection::NegZ => "neg_z"@,
    }
}

/// The axis direction whose key is `s`, if any.
pub open spec fn axis_direction_by_key(s: Seq<char>) -> Option<AxisDirection> {
    if s == "pos_x"@ {
        Some(AxisDirection::PosX)
    } else if s == "neg_x"@ {
        Some(AxisDirection::NegX)
    } else if s == "pos_y"@ {
        Some(AxisDirection::PosY)
    } else if s == "neg_y"@ {
        Some(AxisDirection::NegY)
    } else if s == "pos_z"@ {
        Some(AxisDirection::PosZ)
    } else if s == "neg_z"@ {
        Some(AxisDirection::NegZ)
    } else {
        None
    }
}

/// Returns the key under which a navigation style is saved.
pub fn navigation_style_name(s: NavigationStyle) -> (r: &'static str)
    ensures
        r@ == navigation_style_key(s),
{
    match s {
        NavigationStyle::Turntable => "turntable",
        NavigationStyle::Free => "free",
        NavigationStyle::Planar => "planar",
        NavigationStyle::Arcball => "arcball",
        NavigationStyle::FirstPerson => "first_person",
        NavigationStyle::Disabled => "none",
    }
}

/// Parses a saved navigation style key; unknown keys give `None`.
pub fn parse_navigation_style(s: &str) -> (r: Option<NavigationStyle>)
    ensures
        r == navigation_style_by_key(s@),
{
    if str_equal(s, "turntable") {
        Some(NavigationStyle::Turntable)
    } else if str_equal(s, "free") {
        Some(NavigationStyle::Free)
    } else if str_equal(s, "planar") {
        Some(NavigationStyle::Planar)
    } else if str_equal(s, "arcball") {
        Some(NavigationStyle::Arcball)
    } else if str_equal(s, "first_person") {
        Some(NavigationStyle::FirstPerson)
    } else if str_equal(s, "none") {
        Some(NavigationStyle::Disabled)
    } else {
        None
    }
}

/// Returns the key under which a projection mode is saved.
pub fn projection_mode_name(p: ProjectionMode) -> (r: &'static str)
    ensures
        r@ == projection_mode_key(p),
{
    match p {
        ProjectionMode::Perspective => "perspective",
        ProjectionMode::Orthographic => "orthographic",
    }
}

/// Parses a saved projection mode key; unknown keys give `None`.
pub fn parse_projection_mode(s: &str) -> (r: Option<ProjectionMode>)
    ensures
        r == projection_mode_by_key(s@),
{
    if str_equal(s, "perspective") {
        Some(ProjectionMode::Perspective)
    } else if str_equal(s, "orthographic") {
        Some(ProjectionMode::Orthographic)
    } else {
        None
    }
}

/// Returns the key under which an axis direction is saved.
pub fn axis_direction_name(a: AxisDirection) -> (r: &'static str)
    ensures
        r@ == axis_direction_key(a),
{
    match a {
        AxisDirection::PosX => "pos_x",
        AxisDirection::NegX => "neg_x",
        AxisDirection::PosY => "pos_y",
        AxisDirection::NegY => "neg_y",
        AxisDirection::PosZ => "pos_z",
        AxisDirection::NegZ => "neg_z",
    }
}

/// Parses a saved axis direction key; unknown keys give `None`.
pub fn parse_axis_direction(s: &str) -> (r: Option<AxisDirection>)
    ensures
        r == axis_direction_by_key(s@),
{
    if str_equal(s, "pos_x") {
        Some(AxisDirection::PosX)
    } else if str_equal(s, "neg_x") {
        Some(AxisDirection::NegX)
    } else if str_equal(s, "pos_y") {
        Some(AxisDirection::PosY)
    } else if str_equal(s, "neg_y") {
        Some(AxisDirection::NegY)
    } else if str_equal(s, "pos_z") {
        Some(AxisDirection::PosZ)
    } else if str_equal(s, "neg_z") {
        Some(AxisDirection::NegZ)
    } else {
        None
    }
}

/// The saved key of each navigation style is its snake-case name: "turntable",
/// "free", "planar", "arcball", "first_person", and "none" for disabled; each
/// of these texts parses to its own style.
pub proof fn lemma_navigation_style_key_texts()
    ensures
        navigation_style_key(NavigationStyle::Turntable) == seq!['t', 'u', 'r', 'n', 't', 'a', 'b', 'l', 'e'],
        navigation_style_by_key(seq!['t', 'u', 'r', 'n', 't', 'a', 'b', 'l', 'e']) == Some(NavigationStyle::Turntable),
        navigation_style_key(NavigationStyle::Free) == seq!['f', 'r', 'e', 'e'],
        navigation_style_by_key(seq!['f', 'r', 'e', 'e']) == Some(NavigationStyle::Free),
        navigation_style_key(NavigationStyle::Planar) == seq!['p', 'l', 'a', 'n', 'a', 'r'],
        navigation_style_by_key(seq!['p', 'l', 'a', 'n', 'a', 'r']) == Some(NavigationStyle::Planar),
        navigation_style_key(NavigationStyle::Arcball) == seq!['a', 'r', 'c', 'b', 'a', 'l', 'l'],
        navigation_style_by_key(seq!['a', 'r', 'c', 'b', 'a', 'l', 'l']) == Some(NavigationStyle::Arcball),
        navigation_style_key(NavigationStyle::FirstPerson) == seq!['f', 'i', 'r', 's', 't', '_', 'p', 'e', 'r', 's', 'o', 'n'],
        navigation_style_by_key(seq!['f', 'i', 'r', 's', 't', '_', 'p', 'e', 'r', 's', 'o', 'n']) == Some(NavigationStyle::FirstPerson),
        navigation_style_key(NavigationStyle::Disabled) == seq!['n', 'o', 'n', 'e'],
        navigation_style_by_key(seq!['n', 'o', 'n', 'e']) == Some(NavigationStyle::Disabled),
{
    reveal_strlit("turntable");
    assert(seq!['t', 'u', 'r', 'n', 't', 'a', 'b', 'l', 'e'] =~= "turntable"@);
    reveal_strlit("free");
    assert(seq!['f', 'r', 'e', 'e'] =~= "free"@);
    reveal_strlit("planar");
    assert(seq!['p', 'l', 'a', 'n', 'a', 'r'] =~= "planar"@);
    reveal_strlit("arcball");
    assert(seq!['a', 'r', 'c', 'b', 'a', 'l', 'l'] =~= "arcball"@);
    reveal_strlit("first_person");
    assert(seq!['f', 'i', 'r', 's', 't', '_', 'p', 'e', 'r', 's', 'o', 'n'] =~= "first_person"@);
    reveal_strlit("none");
    assert(seq!['n', 'o', 'n', 'e'] =~= "none"@);
}

/// The saved keys of the projection modes are "perspective" and
/// "orthographic", and each parses to its own mode.
pub proof fn lemma_projection_mode_key_texts()
    ensures
        projection_mode_key(ProjectionMode::Perspective) == seq!['p', 'e', 'r', 's', 'p', 'e', 'c', 't', 'i', 'v', 'e'],
        projection_mode_by_key(seq!['p', 'e', 'r', 's', 'p', 'e', 'c', 't', 'i', 'v', 'e']) == Some(ProjectionMode::Perspective),
        projection_mode_key(ProjectionMode::Orthographic) == seq!['o', 'r', 't', 'h', 'o', 'g', 'r', 'a', 'p', 'h', 'i', 'c'],
        projection_mode_by_key(seq!['o', 'r', 't', 'h', 'o', 'g', 'r', 'a', 'p', 'h', 'i', 'c']) == Some(ProjectionMode::Orthographic),
{
    reveal_strlit("perspective");
    assert(seq!['p', 'e', 'r', 's', 'p', 'e', 'c', 't', 'i', 'v', 'e'] =~= "perspective"@);
    reveal_strlit("orthographic");
    assert(seq!['o', 'r', 't', 'h', 'o', 'g', 'r', 'a', 'p', 'h', 'i', 'c'] =~= "orthographic"@);
}

/// The saved key of an axis direction names its sign and axis: "pos_x",
/// "neg_x", "pos_y", "neg_y", "pos_z", "neg_z"; each parses to its own direction.
pub proof fn lemma_axis_direction_key_texts()
    ensures
        axis_direction_key(AxisDirection::PosX) == seq!['p', 'o', 's', '_', 'x'],
        axis_direction_by_key(seq!['p', 'o', 's', '_', 'x']) == Some(AxisDirection::PosX),
        axis_direction_key(AxisDirection::NegX) == seq!['n', 'e', 'g', '_', 'x'],
        axis_direction_by_key(seq!['n', 'e', 'g', '_', 'x']) == Some(AxisDirection::NegX),
        axis_direction_key(AxisDirection::PosY) == seq!['p', 'o', 's', '_', 'y'],
        axis_direction_by_key(seq!['p', 'o', 's', '_', 'y']) == Some(AxisDirection::PosY),
        axis_direction_key(AxisDirection::NegY) == seq!['n', 'e', 'g', '_', 'y'],
        axis_direction_by_key(seq!['n', 'e', 'g', '_', 'y']) == Some(AxisDirection::NegY),
        axis_direction_key(AxisDirection::PosZ) == seq!['p', 'o', 's', '_', 'z'],
        axis_direction_by_key(seq!['p', 'o', 's', '_', 'z']) == Some(AxisDirection::PosZ),
        axis_direction_key(AxisDirection::NegZ) == seq!['n', 'e', 'g', '_', 'z'],
        axis_direction_by_key(seq!['n', 'e', 'g', '_', 'z']) == Some(AxisDirection::NegZ),
{
    reveal_strlit("pos_x");
    assert(seq!['p', 'o', 's', '_', 'x'] =~= "pos_x"@);
    reveal_strlit("neg_x");
    assert(seq!['n', 'e', 'g', '_', 'x'] =~= "neg_x"@);
    reveal_strlit("pos_y");
    assert(seq!['p', 'o', 's', '_', 'y'] =~= "pos_y"@);
    reveal_strlit("neg_y");
    assert(seq!['n', 'e', 'g', '_', 'y'] =~= "neg_y"@);
    reveal_strlit("pos_z");
    assert(seq!['p', 'o', 's', '_', 'z'] =~= "pos_z"@);
    reveal_strlit("neg_z");
    assert(seq!['n', 'e', 'g', '_', 'z'] =~= "neg_z"@);
}

/// The display name of an axis direction is its sign followed by the capital
/// axis letter.
pub proof fn lemma_axis_display_name_texts()
    ensures
        axis_display_name(AxisDirection::PosX) == seq!['+', 'X'],
        axis_display_name(AxisDirection::NegX) == seq!['-', 'X'],
        axis_display_name(AxisDirection::PosY) == seq!['+', 'Y'],
        axis_display_name(AxisDirection::NegY) == seq!['-', 'Y'],
        axis_display_name(AxisDirection::PosZ) == seq!['+', 'Z'],
        axis_display_name(AxisDirection::NegZ) == seq!['-', 'Z'],
{
    reveal_strlit("+X");
    reveal_strlit("-X");
    reveal_strlit("+Y");
    reveal_strlit("-Y");
    reveal_strlit("+Z");
    reveal_strlit("-Z");
}

/// The integer codes follow declaration order: navigation styles turntable,
/// free, planar, arcball, first person, disabled are 0 to 5; perspective is 0
/// and orthographic 1; axis directions +X, -X, +Y, -Y, +Z, -Z are 0 to 5.
pub proof fn lemma_code_values()
    ensures
        navigation_style_code(NavigationStyle::Turntable) == 0,
        navigation_style_code(NavigationStyle::Free) == 1,
        navigation_style_code(NavigationStyle::Planar) == 2,
        navigation_style_code(NavigationStyle::Arcball) == 3,
        navigation_style_code(NavigationStyle::FirstPerson) == 4,
        navigation_style_code(NavigationStyle::Disabled) == 5,
        projection_mode_code(ProjectionMode::Perspective) == 0,
        projection_mode_code(ProjectionMode::Orthographic) == 1,
        axis_direction_code(AxisDirection::PosX) == 0,
        axis_direction_code(AxisDirection::NegX) == 1,
        axis_direction_code(AxisDirection::PosY) == 2,
        axis_direction_code(AxisDirection::NegY) == 3,
        axis_direction_code(AxisDirection::PosZ) == 4,
        axis_direction_code(AxisDirection::NegZ) == 5,
        forall|v: u32| v >= 5 ==> navigation_style_of_code(v) == NavigationStyle::Disabled,
        forall|v: u32| v >= 1 ==> projection_mode_of_code(v) == ProjectionMode::Orthographic,
        forall|v: u32| v >= 5 ==> axis_direction_of_code(v) == AxisDirection::NegZ,
        forall|v: u32| v >= 6 ==> axis_direction_of_index(v) == AxisDirection::PosY,
{
}

/// The front direction that goes with each up direction: +Y up looks along
/// -Z, -Y along +Z, +Z along +X, -Z along -X, +X along +Y and -X along -Y.
pub proof fn lemma_default_front_table()
    ensures
        default_front_of(AxisDirection::PosY) == AxisDirection::NegZ,
        default_front_of(AxisDirection::NegY) == AxisDirection::PosZ,
        default_front_of(AxisDirection::PosZ) == AxisDirection::PosX,
        default_front_of(AxisDirection::NegZ) == AxisDirection::NegX,
        default_front_of(AxisDirection::PosX) == AxisDirection::PosY,
        default_front_of(AxisDirection::NegX) == AxisDirection::NegY,
{
}

/// Every navigation style survives the round trip through its saved key, and
/// a key that parses names exactly one style.
pub proof fn lemma_navigation_style_key_roundtrip(s: NavigationStyle, k: Seq<char>)
    ensures
        navigation_style_by_key(navigation_style_key(s)) == Some(s),
        navigation_style_by_key(k) == Some(s) ==> k == navigation_style_key(s),
{
    reveal_strlit("turntable");
    reveal_strlit("free");
    reveal_strlit("planar");
    reveal_strlit("arcball");
    reveal_strlit("first_person");
    reveal_strlit("none");
    assert("turntable"@[0] == 't' && "free"@[0] == 'f' && "planar"@[0] == 'p');
    assert("arcball"@[0] == 'a' && "first_person"@[0] == 'f' && "none"@[0] == 'n');
    assert("free"@[1] == 'r' && "first_person"@[1] == 'i');
}

/// Every projection mode survives the round trip through its saved key, and
/// a key that parses names exactly one mode.
pub proof fn lemma_projection_mode_key_roundtrip(p: ProjectionMode, k: Seq<char>)
    ensures
        projection_mode_by_key(projection_mode_key(p)) == Some(p),
        projection_mode_by_key(k) == Some(p) ==> k == projection_mode_key(p),
{
    reveal_strlit("perspective");
    reveal_strlit("orthographic");
    assert("perspective"@[0] == 'p' && "orthographic"@[0] == 'o');
}

/// Every axis direction survives the round trip through its saved key, and a
/// key that parses names exactly one direction.
pub proof fn lemma_axis_direction_key_roundtrip(a: AxisDirection, k: Seq<char>)
    ensures
        axis_direction_by_key(axis_direction_key(a)) == Some(a),
        axis_direction_by_key(k) == Some(a) ==> k == axis_direction_key(a),
{
    reveal_strlit("pos_x");
    reveal_strlit("neg_x");
    reveal_strlit("pos_y");
    reveal_strlit("neg_y");
    reveal_strlit("pos_z");
    reveal_strlit("neg_z");
    assert("pos_x"@[0] == 'p' && "pos_y"@[0] == 'p' && "pos_z"@[0] == 'p');
    assert("neg_x"@[0] == 'n' && "neg_y"@[0] == 'n' && "neg_z"@[0] == 'n');
    assert("pos_x"@[4] == 'x' && "pos_y"@[4] == 'y' && "pos_z"@[4] == 'z');
    assert("neg_x"@[4] == 'x' && "neg_y"@[4] == 'y' && "neg_z"@[4] == 'z');
}

/// Display names tell axis directions apart.
pub proof fn lemma_axis_display_names_distinct(a: AxisDirection, b: AxisDirection)
    ensures
        axis_display_name(a) == axis_display_name(b) ==> a == b,
{
    reveal_strlit("+X");
    reveal_strlit("-X");
    reveal_strlit("+Y");
    reveal_strlit("-Y");
    reveal_strlit("+Z");
    reveal_strlit("-Z");
    if axis_display_name(a) == axis_display_name(b) {
        assert(axis_display_name(a)[0] == axis_display_name(b)[0]);
        assert(axis_display_name(a)[1] == axis_display_name(b)[1]);
    }
}

/// Integer codes round-trip: converting a mode to its code and back gives the
/// mode again, and for the axis the UI index does the same.
pub proof fn lemma_codes_roundtrip(s: NavigationStyle, p: ProjectionMode, a: AxisDirection)
    ensures
        navigation_style_of_code(navigation_style_code(s)) == s,
        projection_mode_of_code(projection_mode_code(p)) == p,
        axis_direction_of_code(axis_direction_code(a)) == a,
        axis_direction_of_index(axis_direction_code(a)) == a,
{
}

/// The default front direction is always perpendicular to the up direction
/// (it lies on another axis), and flipping the up direction flips the front.
pub proof fn lemma_default_front_perpendicular(up: AxisDirection)
    ensures
        axis_of(default_front_of(up)) != axis_of(up),
        default_front_of(opposite(up)) == opposite(default_front_of(up)),
{
}


/// The mode settings of a camera: navigation style, projection mode, and the
/// up and front axis directions. (Position, orientation and lens parameters
/// are floating-point data kept by the renderer.)
#[derive(Debug, Clone, Copy, PartialEq, Eq, Structural)]
pub struct CameraModes {
    /// Navigation style.
    pub navigation_style: NavigationStyle,
    /// Projection mode.
    pub projection_mode: ProjectionMode,
    /// Up direction.
    pub up_direction: AxisDirection,
    /// Front direction.
    pub front_direction: AxisDirection,
}

/// The saved keys of camera modes, in the order projection mode, navigation
/// style, up direction, front direction.
pub open spec fn modes_keys(m: CameraModes) -> (Seq<char>, Seq<char>, Seq<char>, Seq<char>) {
    (
        projection_mode_key(m.projection_mode),
        navigation_style_key(m.navigation_style),
        axis_direction_key(m.up_direction),
        axis_direction_key(m.front_direction),
    )
}

/// The modes after applying saved keys: each key that names a mode replaces
/// that mode, an unknown key keeps the current one.
pub open spec fn modes_after_keys(
    m: CameraModes,
    projection: Seq<char>,
    navigation: Seq<char>,
    up: Seq<char>,
    front: Seq<char>,
) -> CameraModes {
    CameraModes {
        projection_mode: match projection_mode_by_key(projection) {
            Some(p) => p,
            None => m.projection_mode,
        },
        navigation_style: match navigation_style_by_key(navigation) {
            Some(s) => s,
            None => m.navigation_style,
        },
        up_direction: match axis_direction_by_key(up) {
            Some(a) => a,
            None => m.up_direction,
        },
        front_direction: match axis_direction_by_key(front) {
            Some(a) => a,
            None => m.front_direction,
        },
    }
}

impl CameraModes {
    /// The modes of a new camera: turntable navigation, perspective
    /// projection, +Y up and -Z front.
    pub fn new() -> (r: Self)
        ensures
            r == (CameraModes {
                navigation_style: NavigationStyle::Turntable,
                projection_mode: ProjectionMode::Perspective,
                up_direction: AxisDirection::PosY,
                front_direction: AxisDirection::NegZ,
            }),
    {
        CameraModes {
            navigation_style: NavigationStyle::Turntable,
            projection_mode: ProjectionMode::Perspective,
            up_direction: AxisDirection::PosY,
            front_direction: AxisDirection::NegZ,
        }
    }

    /// Sets the navigation style.
    pub fn set_navigation_style(&mut self, style: NavigationStyle)
        ensures
            *final(self) == (CameraModes { navigation_style: style, ..*old(self) }),
    {
        self.navigation_style = style;
    }

    /// Sets the projection mode.
    pub fn set_projection_mode(&mut self, mode: ProjectionMode)
        ensures
            *final(self) == (CameraModes { projection_mode: mode, ..*old(self) }),
    {
        self.projection_mode = mode;
    }

    /// Sets the up direction; the front direction follows it by the
    /// right-hand conventions of `default_front_direction`.
    pub fn set_up_direction(&mut self, direction: AxisDirection)
        ensures
            *final(self) == (CameraModes {
                up_direction: direction,
                front_direction: default_front_of(direction),
                ..*old(self)
            }),
    {
        self.up_direction = direction;
        self.front_direction = direction.default_front_direction();
    }

    /// The keys under which these modes are saved: projection mode,
    /// navigation style, up direction, front direction.
    pub fn saved_keys(&self) -> (r: (&'static str, &'static str, &'static str, &'static str))
        ensures
            (r.0@, r.1@, r.2@, r.3@) == modes_keys(*self),
    {
        (
            projection_mode_name(self.projection_mode),
            navigation_style_name(self.navigation_style),
            axis_direction_name(self.up_direction),
            axis_direction_name(self.front_direction),
        )
    }

    /// Applies saved mode keys; a key that names no mode leaves that mode as it is.
    pub fn apply_saved_keys(&mut self, projection: &str, navigation: &str, up: &str, front: &str)
        ensures
            *final(self) == modes_after_keys(*old(self), projection@, navigation@, up@, front@),
    {
        match parse_projection_mode(projection) {
            Some(p) => {
                self.projection_mode = p;
            },
            None => {},
        }
        match parse_navigation_style(navigation) {
            Some(s) => {
                self.navigation_style = s;
            },
            None => {},
        }
        match parse_axis_direction(up) {
            Some(a) => {
                self.up_direction = a;
            },
            None => {},
        }
        match parse_axis_direction(front) {
            Some(a) => {
                self.front_direction = a;
            },
            None => {},
        }
    }
}

impl Default for CameraModes {
    fn default() -> (r: Self)
        ensures
            r == (CameraModes {
                navigation_style: NavigationStyle::Turntable,
                projection_mode: ProjectionMode::Perspective,
                up_direction: AxisDirection::PosY,
                front_direction: AxisDirection::NegZ,
            }),
    {
        Self::new()
    }
}

/// Saving camera modes and applying the saved keys to any camera restores
/// exactly the saved modes.
pub proof fn lemma_saved_keys_restore(saved: CameraModes, target: CameraModes)
    ensures
        ({
            let k = modes_keys(saved);
            modes_after_keys(target, k.0, k.1, k.2, k.3) == saved
        }),
{
    lemma_projection_mode_key_roundtrip(saved.projection_mode, Seq::empty());
    lemma_navigation_style_key_roundtrip(saved.navigation_style, Seq::empty());
    lemma_axis_direction_key_roundtrip(saved.up_direction, Seq::empty());
    lemma_axis_direction_key_roundtrip(saved.front_direction, Seq::empty());
}

} // verus!
