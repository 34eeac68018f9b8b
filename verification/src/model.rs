use vstd::prelude::*;

verus! {

/// A workspace as Niri reports it: its id and the output (monitor) showing it.
pub struct Workspace {
    pub id: u64,
    pub output: Option<String>,
}

/// Where a window sits in the scrolling layout and how large it is, as Niri
/// reports it: `pos_in_scrolling_layout` is `[column, row]`, `window_size` is
/// `[width, height]` in pixels.
pub struct WindowLayout {
    pub pos_in_scrolling_layout: Option<Vec<u64>>,
    pub window_size: Option<Vec<u64>>,
}

/// A window as Niri reports it.
pub struct Window {
    pub id: u64,
    pub title: Option<String>,
    pub is_focused: bool,
    pub workspace_id: Option<u64>,
    pub layout: Option<WindowLayout>,
}

/// An output (monitor) entry as Niri reports it: its connector name and,
/// where given, its logical x position and logical width in pixels.
pub struct OutputInfo {
    pub name: String,
    pub x: Option<i64>,
    pub width: Option<u64>,
}

} // verus!
