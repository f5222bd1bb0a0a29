//! Set loading: compiling a set's already-read files into one shared
//! element registry.
//!
//! Reading the files from disk is the I/O shell's job; it hands the file
//! contents over as a registry keyed by file name, whose dense ids are the
//! file ids that positions refer back to.

use vstd::prelude::*;

use crate::compile::{parse_file, spec_compile_file_at};
use crate::diagnostics::{DiagView, Diagnostics};
use crate::element::Element;
use crate::id::{IdMap, MappedToId};
use crate::parser::{spec_generate, DiagSeq};
use crate::position::{FileId, Position};

verus! {

/// One loaded source file's text.
#[derive(Debug, Clone)]
pub struct FileContents(pub String);

impl View for FileContents {
    type V = Seq<char>;

    open spec fn view(&self) -> Seq<char> {
        self.0@
    }
}

impl MappedToId for FileContents {
    type Id = FileId;
}

impl FileContents {
    /// A fresh, empty file registry.
    pub fn create_map() -> (r: IdMap<FileContents>)
        ensures
            r.wf(),
            r.spec_names() =~= Seq::<Seq<char>>::empty(),
            r.spec_values() =~= Seq::<FileContents>::empty(),
    {
        IdMap::new()
    }
}

/// The texts held in a file registry, in file-id order.
pub open spec fn file_views(files: IdMap<FileContents>) -> Seq<Seq<char>> {
    files.spec_values().map(|_i: int, f: FileContents| f@)
}

/// Folds per-file compilation over the file texts from `i` on, each file
/// parsed under its own dense id.
pub open spec fn spec_load_set_at(contents: Seq<Seq<char>>, i: int, names: Seq<Seq<char>>, values:
    Seq<Element>) -> (Seq<Seq<char>>, Seq<Element>, DiagSeq)
    decreases contents.len() - i,
{
    if i < 0 || i >= contents.len() {
        (names, values, Seq::empty())
    } else {
        let gen = spec_generate(contents[i], i as FileId);
        let out = spec_compile_file_at(gen.nodes, 0, names, values);
        let rest = spec_load_set_at(contents, i + 1, out.0, out.1);
        (rest.0, rest.1, gen.diags + out.2 + rest.2)
    }
}

/// Compiles every file of a set, in file-id order, into one fresh element
/// registry seeded with the builtin elements.
///
/// When an error was already reported (the I/O shell could not read the
/// set) nothing is compiled and `None` comes back.  Otherwise the registry
/// comes back even if compiling reported errors: the caller gates
/// installation on [`Diagnostics::has_errored`].
pub fn load_set(files: &IdMap<FileContents>, diagnostics: &mut Diagnostics) -> (r: Option<IdMap<
    Element>>)
    requires
        files.wf(),
        old(diagnostics).wf(),
        forall|i: int| 0 <= i < files.spec_len() ==> (#[trigger] files.spec_values()[i])@.len()
            < usize::MAX,
    ensures
        final(diagnostics).wf(),
        old(diagnostics).spec_has_errored() ==> r is None && final(diagnostics)@ == old(
            diagnostics)@,
        !old(diagnostics).spec_has_errored() ==> match r {
            Some(m) => {
                let out = spec_load_set_at(file_views(*files), 0, seq!["Void"@, "Air"@], seq![
                    Element::default_spec(), Element::default_spec()]);
                &&& m.wf()
                &&& m.spec_names() == out.0
                &&& m.spec_values() == out.1
                &&& final(diagnostics)@ == old(diagnostics)@ + out.2
            },
            None => false,
        },
{
    if diagnostics.has_errored() {
        return None;
    }
    let ghost cviews = file_views(*files);
    let ghost diags0 = diagnostics@;
    let mut elements = Element::create_map();
    let n = files.len();
    proof {
        files.lemma_len_bound();
    }
    let mut i: usize = 0;
    while i < n
        invariant
            i <= n,
            n == files.spec_len(),
            files.spec_values().len() == n,
            n <= u16::MAX,
            files.wf(),
            forall|k: int| 0 <= k < files.spec_len() ==> (#[trigger] files.spec_values()[k])@.len()
                < usize::MAX,
            cviews == file_views(*files),
            diagnostics.wf(),
            elements.wf(),
            ({
                let full = spec_load_set_at(cviews, 0, seq!["Void"@, "Air"@], seq![
                    Element::default_spec(), Element::default_spec()]);
                let rem = spec_load_set_at(cviews, i as int, elements.spec_names(),
                    elements.spec_values());
                &&& full.0 == rem.0
                &&& full.1 == rem.1
                &&& diags0 + full.2 =~= diagnostics@ + rem.2
            }),
        decreases n - i,
    {
        let ghost names0 = elements.spec_names();
        let ghost values0 = elements.spec_values();
        let ghost dmid = diagnostics@;
        let id: u16 = i as u16;
        match files.get(id) {
            Some(contents) => {
                proof {
                    assert(cviews[i as int] == contents@);
                }
                parse_file(contents.0.as_str(), id, diagnostics, &mut elements);
                proof {
                    let gen = spec_generate(cviews[i as int], i as FileId);
                    let out = spec_compile_file_at(gen.nodes, 0, names0, values0);
                    assert(diagnostics@ =~= dmid + (gen.diags + out.2));
                    let full = spec_load_set_at(cviews, 0, seq!["Void"@, "Air"@], seq![
                        Element::default_spec(), Element::default_spec()]);
                    let rem1 = spec_load_set_at(cviews, i + 1, elements.spec_names(),
                        elements.spec_values());
                    assert(diags0 + full.2 =~= diagnostics@ + rem1.2);
                }
            },
            None => {
                proof {
                    assert(false);
                }
            },
        }
        i = i + 1;
    }
    proof {
        let full = spec_load_set_at(cviews, 0, seq!["Void"@, "Air"@], seq![Element::default_spec(),
            Element::default_spec()]);
        let rem = spec_load_set_at(cviews, i as int, elements.spec_names(),
            elements.spec_values());
        assert(cviews.len() == files.spec_len());
        assert(rem.2 =~= Seq::<(Option<Position>, DiagView)>::empty());
        assert(diags0 + full.2 =~= diagnostics@);
    }
    Some(elements)
}

} // verus!
