//! Identity of a source module: the file path it lives in, as a sequence of
//! path segments, plus the chain of inline module names inside that file.

use vstd::prelude::*;
use vstd::string::StringExecFns;

verus! {

/// A module location: `segments` are the components of the file path, `mods`
/// the names of the inline modules between the file root and the module.
pub struct ModulePath {
    pub segments: Vec<String>,
    pub mods: Vec<String>,
}

/// Mathematical model of a module location: the two name sequences.
pub struct ModulePathModel {
    pub segments: Seq<Seq<char>>,
    pub mods: Seq<Seq<char>>,
}

impl View for ModulePath {
    type V = ModulePathModel;

    open spec fn view(&self) -> ModulePathModel {
        ModulePathModel { segments: self.segments.deep_view(), mods: self.mods.deep_view() }
    }
}

/// The names joined by `/` between each pair.
pub open spec fn spec_join_slash(parts: Seq<Seq<char>>) -> Seq<char>
    decreases parts.len(),
{
    if parts.len() == 0 {
        Seq::empty()
    } else if parts.len() == 1 {
        parts[0]
    } else {
        spec_join_slash(parts.drop_last()) + "/"@ + parts.last()
    }
}

/// Rendering of a whole module location: path segments joined by `/`, and,
/// when inline modules are present, a `:` followed by the module names joined
/// by `/`.
pub open spec fn spec_render(m: ModulePathModel) -> Seq<char> {
    if m.mods.len() > 0 {
        spec_join_slash(m.segments) + ":"@ + spec_join_slash(m.mods)
    } else {
        spec_join_slash(m.segments)
    }
}

impl ModulePath {
    /// A location at the given file path, outside any inline module.
    pub fn from_path(segments: Vec<String>) -> (r: ModulePath)
        ensures
            r@.segments == segments.deep_view(),
            r@.mods.len() == 0,
    {
        ModulePath { segments, mods: Vec::new() }
    }

    /// The directory that holds this file: the last path segment is removed
    /// (an empty path stays empty) and the inline-module chain is cleared.
    pub fn base(self) -> (r: ModulePath)
        ensures
            r@.segments == if self@.segments.len() > 0 {
                self@.segments.drop_last()
            } else {
                self@.segments
            },
            r@.mods.len() == 0,
    {
        let ghost orig = self@.segments;
        let mut segments = self.segments;
        if segments.len() > 0 {
            segments.pop();
            assert(segments.deep_view() =~= orig.drop_last());
        }
        ModulePath { segments, mods: Vec::new() }
    }

    /// Appends one path segment to the file path.
    pub fn join(self, seg: String) -> (r: ModulePath)
        ensures
            r@.segments == self@.segments.push(seg@),
            r@.mods == self@.mods,
    {
        let ghost orig = self@.segments;
        let ghost segv = seg@;
        let mut segments = self.segments;
        segments.push(seg);
        assert(segments.deep_view() =~= orig.push(segv));
        ModulePath { segments, mods: self.mods }
    }

    /// Descends into one inline module.
    pub fn join_mod(self, name: String) -> (r: ModulePath)
        ensures
            r@.segments == self@.segments,
            r@.mods == self@.mods.push(name@),
    {
        let ghost orig = self@.mods;
        let ghost namev = name@;
        let mut mods = self.mods;
        mods.push(name);
        assert(mods.deep_view() =~= orig.push(namev));
        ModulePath { segments: self.segments, mods }
    }

    /// Renders the location as text.
    pub fn render(&self) -> (r: String)
        ensures
            r@ == spec_render(self@),
    {
        let path = join_slash(&self.segments);
        if self.mods.len() > 0 {
            let mut out = path;
            out.append(":");
            let mods = join_slash(&self.mods);
            out.append(mods.as_str());
            assert(out@ =~= spec_render(self@));
            out
        } else {
            path
        }
    }
}

/// Joins the given names with `/` between each pair.
fn join_slash(parts: &Vec<String>) -> (r: String)
    ensures
        r@ == spec_join_slash(parts.deep_view()),
{
    let mut out = String::new();
    let mut i: usize = 0;
    while i < parts.len()
        invariant
            0 <= i <= parts@.len(),
            parts.deep_view().len() == parts@.len(),
            out@ == spec_join_slash(parts.deep_view().take(i as int)),
        decreases parts@.len() - i,
    {
        assert(parts.deep_view()[i as int] == parts@[i as int]@);
        if i > 0 {
            out.append("/");
        }
        out.append(parts[i].as_str());
        proof {
            let dv = parts.deep_view();
            assert(dv.take(i as int + 1).drop_last() =~= dv.take(i as int));
            assert(dv.take(i as int + 1).last() == dv[i as int]);
            if i == 0 {
                assert(out@ =~= spec_join_slash(dv.take(1int)));
            } else {
                assert(out@ =~= spec_join_slash(dv.take(i as int + 1)));
            }
        }
        i += 1;
    }
    proof {
        assert(parts.deep_view().take(parts@.len() as int) =~= parts.deep_view());
    }
    out
}

} // verus!
