//! The records a descriptor describes: examples and the applications each
//! one starts.

use vstd::prelude::*;

verus! {

/// One process to start.
#[derive(Debug, Clone)]
pub struct AppSpec {
    /// Path of the executable.
    pub path: String,
    /// Working directory; the launcher's own when absent.
    pub dir: Option<String>,
    /// Arguments, in order.
    pub args: Vec<String>,
    /// Variables laid over the inherited environment. Where a key occurs
    /// twice the later entry counts.
    pub env: Vec<(String, String)>,
    /// Seconds to wait before the process is started.
    pub delay: Option<u64>,
}

/// One selectable example: a named group of applications started together.
#[derive(Debug, Clone)]
pub struct ExampleSpec {
    pub name: String,
    pub description: String,
    /// The applications, in launch order.
    pub apps: Vec<AppSpec>,
}

/// What an `AppSpec` stands for.
pub ghost struct AppView {
    pub path: Seq<char>,
    pub dir: Option<Seq<char>>,
    pub args: Seq<Seq<char>>,
    pub env: Map<Seq<char>, Seq<char>>,
    pub delay: Option<u64>,
}

/// What an `ExampleSpec` stands for.
pub ghost struct ExampleView {
    pub name: Seq<char>,
    pub description: Seq<char>,
    pub apps: Seq<AppView>,
}

/// The characters of each string of `items`.
pub open spec fn texts(items: Seq<String>) -> Seq<Seq<char>> {
    items.map_values(|s: String| s@)
}

/// The overlay that a list of pairs describes: later pairs override
/// earlier ones with the same key.
pub open spec fn overlay(pairs: Seq<(String, String)>) -> Map<Seq<char>, Seq<char>>
    decreases pairs.len(),
{
    if pairs.len() == 0 {
        Map::empty()
    } else {
        overlay(pairs.drop_last()).insert(pairs.last().0@, pairs.last().1@)
    }
}

/// The characters of an optional string.
pub open spec fn opt_text(s: Option<String>) -> Option<Seq<char>> {
    match s {
        Some(t) => Some(t@),
        None => None,
    }
}

impl View for AppSpec {
    type V = AppView;

    open spec fn view(&self) -> AppView {
        AppView {
            path: self.path@,
            dir: opt_text(self.dir),
            args: texts(self.args@),
            env: overlay(self.env@),
            delay: self.delay,
        }
    }
}

impl View for ExampleSpec {
    type V = ExampleView;

    open spec fn view(&self) -> ExampleView {
        ExampleView {
            name: self.name@,
            description: self.description@,
            apps: self.apps@.map_values(|a: AppSpec| a@),
        }
    }
}

/// The views of a list of examples.
pub open spec fn example_views(examples: Seq<ExampleSpec>) -> Seq<ExampleView> {
    examples.map_values(|e: ExampleSpec| e@)
}

/// The names of a list of examples, in order.
pub open spec fn names_of(examples: Seq<ExampleSpec>) -> Seq<Seq<char>> {
    examples.map_values(|e: ExampleSpec| e.name@)
}

/// The seconds to wait before an application with this delay setting is
/// started: an absent delay is no delay.
pub open spec fn delay_seconds(delay: Option<u64>) -> u64 {
    match delay {
        Some(d) => d,
        None => 0,
    }
}

impl AppSpec {
    /// The seconds to wait before this application is started.
    pub fn delay_secs(&self) -> (d: u64)
        ensures
            d == delay_seconds(self.delay),
    {
        match self.delay {
            Some(d) => d,
            None => 0,
        }
    }
}

/// The names of `examples`, in order.
pub fn example_names(examples: &Vec<ExampleSpec>) -> (names: Vec<String>)
    ensures
        texts(names@) == names_of(examples@),
{
    let mut names: Vec<String> = Vec::new();
    let mut i: usize = 0;
    while i < examples.len()
        invariant
            i <= examples.len(),
            names.len() == i,
            forall|k: int| 0 <= k < i ==> (#[trigger] names@[k])@ == examples@[k].name@,
        decreases examples.len() - i,
    {
        names.push(examples[i].name.clone());
        i += 1;
    }
    assert(texts(names@) =~= names_of(examples@));
    names
}

} // verus!
