//! What clients are told when a request is through.

use vstd::prelude::*;
use vstd::string::*;

use crate::diagnostics::{bool_str, truth};
use crate::text::{concat2, concat3, concat4, concat5, decimal, u64_text};

verus! {

// ---------------------------------------------------------------------------
// Playlists
// ---------------------------------------------------------------------------

/// What is said after items were added to a playlist.
pub fn items_added_message(name: &str) -> (r: String)
    ensures
        r@ == "Added items to "@ + name@,
{
    concat2("Added items to ", name)
}

/// What is said after items were removed from a playlist.
pub fn items_removed_message(count: usize, name: &str) -> (r: String)
    ensures
        r@ == "Removed "@ + decimal(count as nat) + " item(s) from "@ + name@,
{
    let n = u64_text(count as u64);
    concat4("Removed ", n.as_str(), " item(s) from ", name)
}

/// What is said after a playlist was created.
pub fn playlist_created_message(name: &str, count: usize) -> (r: String)
    ensures
        r@ == "Created playlist `"@ + name@ + "` with "@ + decimal(count as nat) + " item(s)"@,
{
    let n = u64_text(count as u64);
    concat5("Created playlist `", name, "` with ", n.as_str(), " item(s)")
}

/// What is said after a playlist was unfollowed.
pub fn playlist_unfollowed_message(name: &str) -> (r: String)
    ensures
        r@ == "Unfollowed playlist "@ + name@,
{
    concat2("Unfollowed playlist ", name)
}

/// What is said after a playlist got a new cover.
pub fn cover_updated_message(name: &str) -> (r: String)
    ensures
        r@ == "Updated cover for playlist "@ + name@,
{
    concat2("Updated cover for playlist ", name)
}

// ---------------------------------------------------------------------------
// Library
// ---------------------------------------------------------------------------

/// What is said after something was removed from the library.
pub fn unsaved_message(uri: &str) -> (r: String)
    ensures
        r@ == "Unsaved "@ + uri@,
{
    concat2("Unsaved ", uri)
}

/// What is said after an artist was followed.
pub fn followed_message(uri: &str) -> (r: String)
    ensures
        r@ == "Followed "@ + uri@,
{
    concat2("Followed ", uri)
}

/// What is said after an artist was unfollowed.
pub fn unfollowed_message(uri: &str) -> (r: String)
    ensures
        r@ == "Unfollowed "@ + uri@,
{
    concat2("Unfollowed ", uri)
}

// ---------------------------------------------------------------------------
// Visualizer and themes
// ---------------------------------------------------------------------------

/// What is said after the visualizer was switched on or off.
pub fn viz_enabled_message(enabled: bool) -> (r: String)
    ensures
        r@ == "visualization "@ + if enabled {
            "enabled"@
        } else {
            "disabled"@
        },
{
    if enabled {
        concat2("visualization ", "enabled")
    } else {
        concat2("visualization ", "disabled")
    }
}

/// What is said after the visualizer was given another source.
pub fn viz_source_message(source: &str) -> (r: String)
    ensures
        r@ == "visualization source set to "@ + source@,
{
    concat2("visualization source set to ", source)
}

/// What is said after the visualizer was given another style.
pub fn viz_style_message(style: &str) -> (r: String)
    ensures
        r@ == "visualization style set to "@ + style@,
{
    concat2("visualization style set to ", style)
}

/// What is said of a style that there is not.
pub fn unknown_viz_style_message(style: &str) -> (r: String)
    ensures
        r@ == "unknown visualizer style `"@ + style@
            + "`; run `spotuify viz styles` for the list"@,
{
    concat3("unknown visualizer style `", style, "`; run `spotuify viz styles` for the list")
}

/// What is said after a client gained or lost the focus; a client that does not
/// name itself is unknown.
pub fn viz_focus_message(client: Option<&str>, focused: bool) -> (r: String)
    ensures
        r@ == "viz focus["@ + (match client {
            Some(name) => name@,
            None => "unknown"@,
        }) + "] = "@ + truth(focused),
{
    let name = match client {
        Some(name) => name,
        None => "unknown",
    };
    concat4("viz focus[", name, "] = ", bool_str(focused))
}

/// What is said after a theme was chosen.
pub fn theme_set_message(name: &str) -> (r: String)
    ensures
        r@ == "theme set to "@ + name@,
{
    concat2("theme set to ", name)
}

/// What is said of a theme that there is not.
pub fn unknown_theme_message(name: &str, known: &str) -> (r: String)
    ensures
        r@ == "unknown theme `"@ + name@ + "`; expected one of "@ + known@,
{
    concat4("unknown theme `", name, "`; expected one of ", known)
}

} // verus!
