//! The registry of supported tracks and the resolver that picks the tracks
//! a working directory belongs to.
use vstd::prelude::*;

verus! {

/// The character sequences held by a vector of strings.
pub open spec fn views(v: Seq<String>) -> Seq<Seq<char>> {
    v.map_values(|x: String| x@)
}

/// One language track: the names it is known by, where its sources live,
/// which file suffixes are sources, and which files mark a directory as
/// belonging to it.
pub struct TrackDefinition {
    pub name: String,
    pub aliases: Vec<String>,
    pub source_dir: String,
    pub extensions: Vec<String>,
    pub marker_files: Vec<String>,
}

impl TrackDefinition {
    /// Every name the track answers to: its own name, then its aliases.
    pub open spec fn names(&self) -> Seq<Seq<char>> {
        seq![self.name@].add(views(self.aliases@))
    }

    pub open spec fn answers_to(&self, n: Seq<char>) -> bool {
        self.names().contains(n)
    }

    pub open spec fn extension_views(&self) -> Seq<Seq<char>> {
        views(self.extensions@)
    }

    pub open spec fn marker_views(&self) -> Seq<Seq<char>> {
        views(self.marker_files@)
    }

    /// One of the track's marker files is among `present`.
    pub open spec fn marked_by(&self, present: Seq<Seq<char>>) -> bool {
        exists|k: int| 0 <= k < self.marker_views().len() && present.contains(#[trigger] self.marker_views()[k])
    }

    /// The track has exactly the given name, aliases, source directory,
    /// extensions and marker files.
    pub open spec fn describes(
        &self,
        name: Seq<char>,
        aliases: Seq<Seq<char>>,
        dir: Seq<char>,
        exts: Seq<Seq<char>>,
        markers: Seq<Seq<char>>,
    ) -> bool {
        &&& self.name@ == name
        &&& views(self.aliases@) == aliases
        &&& self.source_dir@ == dir
        &&& self.extension_views() == exts
        &&& self.marker_views() == markers
    }
}

/// The ascending indices `i < n` for which `p(i)` holds.
pub open spec fn indices_where(n: nat, p: spec_fn(int) -> bool) -> Seq<usize>
    decreases n,
{
    if n == 0 {
        seq![]
    } else {
        let prev = indices_where((n - 1) as nat, p);
        if p(n - 1) {
            prev.push((n - 1) as usize)
        } else {
            prev
        }
    }
}

/// `indices_where` holds exactly the indices below `n` that satisfy `p`,
/// in strictly ascending order.
pub proof fn lemma_indices_where(n: nat, p: spec_fn(int) -> bool)
    requires
        n <= usize::MAX + 1,
    ensures
        forall|k: int| 0 <= k < indices_where(n, p).len() ==> {
            let i = #[trigger] indices_where(n, p)[k] as int;
            0 <= i < n && p(i)
        },
        forall|a: int, b: int|
            0 <= a < b < indices_where(n, p).len() ==> indices_where(n, p)[a] < indices_where(n, p)[b],
        forall|i: int| 0 <= i < n && #[trigger] p(i) ==> indices_where(n, p).contains(i as usize),
    decreases n,
{
    if n > 0 {
        lemma_indices_where((n - 1) as nat, p);
        let prev = indices_where((n - 1) as nat, p);
        if p(n - 1) {
            assert(indices_where(n, p).last() == (n - 1) as usize);
            assert forall|i: int| 0 <= i < n && #[trigger] p(i) implies indices_where(n, p).contains(i as usize) by {
                if i < n - 1 {
                    let k = choose|k: int| 0 <= k < prev.len() && prev[k] == i as usize;
                    assert(indices_where(n, p)[k] == i as usize);
                } else {
                    assert(indices_where(n, p)[prev.len() as int] == i as usize);
                }
            }
        }
    }
}

/// Whether `v` holds a string equal to `s`.
pub fn contains_string(v: &Vec<String>, s: &String) -> (r: bool)
    ensures
        r == views(v@).contains(s@),
{
    let mut k: usize = 0;
    while k < v.len()
        invariant
            k <= v@.len(),
            forall|j: int| 0 <= j < k ==> v@[j]@ != s@,
        decreases v@.len() - k,
    {
        if v[k] == *s {
            assert(views(v@)[k as int] == s@);
            return true;
        }
        k = k + 1;
    }
    assert(!views(v@).contains(s@)) by {
        if views(v@).contains(s@) {
            let j = choose|j: int| 0 <= j < views(v@).len() && views(v@)[j] == s@;
            assert(v@[j]@ == s@);
        }
    }
    false
}

/// The table of supported tracks.
pub struct Registry {
    pub tracks: Vec<TrackDefinition>,
}

impl Registry {
    /// No name is shared by two tracks.
    pub open spec fn wf(&self) -> bool {
        forall|i: int, j: int, n: Seq<char>|
            0 <= i < self.tracks@.len() && 0 <= j < self.tracks@.len() && i != j
                && #[trigger] self.tracks@[i].answers_to(n) ==> !#[trigger] self.tracks@[j].answers_to(n)
    }

    /// The tracks selected by an explicit name, in registry order.
    pub open spec fn named(&self, n: Seq<char>) -> Seq<usize> {
        indices_where(self.tracks@.len(), |i: int| self.tracks@[i].answers_to(n))
    }

    /// The tracks with a marker file among `present`, in registry order.
    pub open spec fn detected(&self, present: Seq<Seq<char>>) -> Seq<usize> {
        indices_where(self.tracks@.len(), |i: int| self.tracks@[i].marked_by(present))
    }

    /// The tracks to use: those answering to `name` when one is given,
    /// else those whose marker files are present.
    pub open spec fn resolved(&self, name: Option<Seq<char>>, present: Seq<Seq<char>>) -> Seq<usize> {
        match name {
            Some(n) => self.named(n),
            None => self.detected(present),
        }
    }

    /// Indices of the tracks that answer to `name`, in registry order.
    pub fn select_by_name(&self, name: &str) -> (r: Vec<usize>)
        ensures
            r@ == self.named(name@),
    {
        let wanted = String::from_str(name);
        let ghost p = |i: int| self.tracks@[i].answers_to(name@);
        let mut r: Vec<usize> = Vec::new();
        let mut i: usize = 0;
        while i < self.tracks.len()
            invariant
                i <= self.tracks@.len(),
                wanted@ == name@,
                p == (|i: int| self.tracks@[i].answers_to(name@)),
                r@ == indices_where(i as nat, p),
            decreases self.tracks@.len() - i,
        {
            let t = &self.tracks[i];
            let mut hit = t.name == wanted;
            assert(t.names()[0] == t.name@);
            let mut k: usize = 0;
            while k < t.aliases.len() && !hit
                invariant
                    k <= t.aliases@.len(),
                    wanted@ == name@,
                    hit ==> t.answers_to(name@),
                    !hit ==> forall|j: int| 0 <= j < k ==> t.aliases@[j]@ != name@,
                    !hit ==> t.name@ != name@,
                decreases t.aliases@.len() - k,
            {
                if t.aliases[k] == wanted {
                    assert(t.names()[k + 1] == name@);
                    hit = true;
                }
                k = k + 1;
            }
            if hit {
                r.push(i);
            } else {
                assert(!t.answers_to(name@)) by {
                    if t.names().contains(name@) {
                        let j = choose|j: int| 0 <= j < t.names().len() && t.names()[j] == name@;
                        if j > 0 {
                            assert(t.aliases@[j - 1]@ == name@);
                        }
                    }
                }
            }
            i = i + 1;
        }
        r
    }

    /// Indices of the tracks with a marker file among `present`, in
    /// registry order.
    pub fn detect(&self, present: &Vec<String>) -> (r: Vec<usize>)
        ensures
            r@ == self.detected(views(present@)),
    {
        let ghost pv = views(present@);
        let ghost p = |i: int| self.tracks@[i].marked_by(pv);
        let mut r: Vec<usize> = Vec::new();
        let mut i: usize = 0;
        while i < self.tracks.len()
            invariant
                i <= self.tracks@.len(),
                pv == views(present@),
                p == (|i: int| self.tracks@[i].marked_by(pv)),
                r@ == indices_where(i as nat, p),
            decreases self.tracks@.len() - i,
        {
            let t = &self.tracks[i];
            let ghost mv = t.marker_views();
            let mut hit = false;
            let mut k: usize = 0;
            while k < t.marker_files.len() && !hit
                invariant
                    k <= t.marker_files@.len(),
                    pv == views(present@),
                    mv == t.marker_views(),
                    hit ==> t.marked_by(pv),
                    !hit ==> forall|j: int| 0 <= j < k ==> !pv.contains(#[trigger] mv[j]),
                decreases t.marker_files@.len() - k,
            {
                if contains_string(present, &t.marker_files[k]) {
                    assert(pv.contains(mv[k as int]));
                    hit = true;
                }
                k = k + 1;
            }
            if hit {
                r.push(i);
            }
            i = i + 1;
        }
        r
    }

    /// The tracks to use: by name when `track` is given, else by the marker
    /// files among `present`.
    pub fn resolve(&self, track: Option<&str>, present: &Vec<String>) -> (r: Vec<usize>)
        ensures
            r@ == self.resolved(
                match track {
                    Some(t) => Some(t@),
                    None => None,
                },
                views(present@),
            ),
    {
        match track {
            Some(t) => self.select_by_name(t),
            None => self.detect(present),
        }
    }

    /// The supported tracks, in detection order: rust, javascript (also
    /// typescript, js, ts), java, gleam and go.
    pub fn standard() -> (r: Registry)
        ensures
            r.wf(),
            r.tracks@.len() == 5,
            r.tracks@[0].describes("rust"@, seq![], "src/"@, seq![".rs"@], seq!["Cargo.toml"@]),
            r.tracks@[1].describes(
                "javascript"@,
                seq!["typescript"@, "js"@, "ts"@],
                "src/"@,
                seq![".js"@, ".ts"@],
                seq!["package.json"@, "deno.json"@],
            ),
            r.tracks@[2].describes(
                "java"@,
                seq![],
                "src/main/java/"@,
                seq![".java"@],
                seq!["gradlew"@, "pom.xml"@],
            ),
            r.tracks@[3].describes("gleam"@, seq![], "src/"@, seq![".gleam"@], seq!["gleam.toml"@]),
            r.tracks@[4].describes("go"@, seq![], "src/main/"@, seq![".go"@], seq!["go.mod"@]),
    {
        let tracks = vec![
            TrackDefinition {
                name: String::from_str("rust"),
                aliases: vec![],
                source_dir: String::from_str("src/"),
                extensions: vec![String::from_str(".rs")],
                marker_files: vec![String::from_str("Cargo.toml")],
            },
            TrackDefinition {
                name: String::from_str("javascript"),
                aliases: vec![String::from_str("typescript"), String::from_str("js"), String::from_str("ts")],
                source_dir: String::from_str("src/"),
                extensions: vec![String::from_str(".js"), String::from_str(".ts")],
                marker_files: vec![String::from_str("package.json"), String::from_str("deno.json")],
            },
            TrackDefinition {
                name: String::from_str("java"),
                aliases: vec![],
                source_dir: String::from_str("src/main/java/"),
                extensions: vec![String::from_str(".java")],
                marker_files: vec![String::from_str("gradlew"), String::from_str("pom.xml")],
            },
            TrackDefinition {
                name: String::from_str("gleam"),
                aliases: vec![],
                source_dir: String::from_str("src/"),
                extensions: vec![String::from_str(".gleam")],
                marker_files: vec![String::from_str("gleam.toml")],
            },
            TrackDefinition {
                name: String::from_str("go"),
                aliases: vec![],
                source_dir: String::from_str("src/main/"),
                extensions: vec![String::from_str(".go")],
                marker_files: vec![String::from_str("go.mod")],
            },
        ];
        let r = Registry { tracks };
        assert(views(r.tracks@[0].aliases@) =~= seq![]);
        assert(views(r.tracks@[1].aliases@) =~= seq!["typescript"@, "js"@, "ts"@]);
        assert(views(r.tracks@[2].aliases@) =~= seq![]);
        assert(views(r.tracks@[3].aliases@) =~= seq![]);
        assert(views(r.tracks@[4].aliases@) =~= seq![]);
        assert(r.tracks@[0].extension_views() =~= seq![".rs"@]);
        assert(r.tracks@[1].extension_views() =~= seq![".js"@, ".ts"@]);
        assert(r.tracks@[2].extension_views() =~= seq![".java"@]);
        assert(r.tracks@[3].extension_views() =~= seq![".gleam"@]);
        assert(r.tracks@[4].extension_views() =~= seq![".go"@]);
        assert(r.tracks@[0].marker_views() =~= seq!["Cargo.toml"@]);
        assert(r.tracks@[1].marker_views() =~= seq!["package.json"@, "deno.json"@]);
        assert(r.tracks@[2].marker_views() =~= seq!["gradlew"@, "pom.xml"@]);
        assert(r.tracks@[3].marker_views() =~= seq!["gleam.toml"@]);
        assert(r.tracks@[4].marker_views() =~= seq!["go.mod"@]);
        proof {
            reveal_strlit("rust");
            reveal_strlit("javascript");
            reveal_strlit("typescript");
            reveal_strlit("js");
            reveal_strlit("ts");
            reveal_strlit("java");
            reveal_strlit("gleam");
            reveal_strlit("go");
            assert(r.tracks@[0].names() =~= seq!["rust"@]);
            assert(r.tracks@[1].names() =~= seq!["javascript"@, "typescript"@, "js"@, "ts"@]);
            assert(r.tracks@[2].names() =~= seq!["java"@]);
            assert(r.tracks@[3].names() =~= seq!["gleam"@]);
            assert(r.tracks@[4].names() =~= seq!["go"@]);
            // Equal names would agree in length and in their first character.
            assert("rust"@[0] == 'r' && "java"@[0] == 'j');
            assert("javascript"@[0] == 'j' && "typescript"@[0] == 't');
            assert("js"@[0] == 'j' && "ts"@[0] == 't' && "go"@[0] == 'g');
            assert("rust"@.len() == 4 && "java"@.len() == 4 && "javascript"@.len() == 10);
            assert("typescript"@.len() == 10 && "gleam"@.len() == 5);
            assert("js"@.len() == 2 && "ts"@.len() == 2 && "go"@.len() == 2);
            let ghost t = r.tracks@;
            assert forall|i: int, n: Seq<char>| 0 <= i < 5 && #[trigger] t[i].answers_to(n) implies
                (i == 0 ==> n == "rust"@)
                && (i == 1 ==> (n == "javascript"@ || n == "typescript"@ || n == "js"@ || n == "ts"@))
                && (i == 2 ==> n == "java"@)
                && (i == 3 ==> n == "gleam"@)
                && (i == 4 ==> n == "go"@) by {
                let k = choose|k: int| 0 <= k < t[i].names().len() && t[i].names()[k] == n;
            }
            assert forall|i: int, j: int, n: Seq<char>|
                0 <= i < 5 && 0 <= j < 5 && i != j && #[trigger] t[i].answers_to(n)
                    implies !#[trigger] t[j].answers_to(n) by {}
        }
        r
    }
}

} // verus!
