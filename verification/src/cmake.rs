//! The content of the CMake project that rebuilds an FMU from its sources.
use vstd::prelude::*;
use crate::build_description::{
    BuildConfiguration, BuildDescription, IncludeDirectory, PreprocessorDefinition, SourceFile,
    SourceFileSet,
};
use crate::text::{prefixed, push_char, views};

verus! {

/// The values that fill the `CMakeLists.txt` template.
#[derive(Debug, PartialEq)]
pub struct CMakeListsTemplate {
    pub model_identifier: String,
    pub fmi_major_version: i32,
    pub definitions: Vec<String>,
    pub sources: Vec<String>,
    pub include_dirs: Vec<String>,
    pub target_path: String,
}

/// What the project reads of an interface (Co-Simulation or Model Exchange)
/// of an FMI 2.0 model description.
#[derive(Debug, PartialEq)]
pub struct InterfaceSources {
    pub modelIdentifier: String,
    pub sourceFiles: Vec<String>,
}

/// The message when the model description declares no interface.
pub open spec fn no_model_identifier_message() -> Seq<char> {
    "No model identifier found in modelDescription.xml"@
}

/// The path of a file of the FMU's `sources` directory in the project.
pub open spec fn in_sources(name: Seq<char>) -> Seq<char> {
    "src/sources/"@ + name
}

/// Each name placed in the project's `sources` directory.
pub open spec fn all_in_sources(names: Seq<Seq<char>>) -> Seq<Seq<char>> {
    names.map_values(|n: Seq<char>| in_sources(n))
}

/// The sources of an FMI 2.0 project: the model description, the three FMI
/// headers, then the source files of the interface.
pub open spec fn fmi2_sources(source_files: Seq<Seq<char>>) -> Seq<Seq<char>> {
    seq![
        "src/modelDescription.xml"@,
        "include/fmi2Functions.h"@,
        "include/fmi2FunctionTypes.h"@,
        "include/fmi2TypesPlatform.h"@,
    ] + all_in_sources(source_files)
}

/// The template values of an FMI 2.0 project: the Co-Simulation interface is
/// used where there is one, else the Model Exchange interface.
pub open spec fn spec_fmi2_cmake_lists(
    cs: Option<InterfaceSources>,
    me: Option<InterfaceSources>,
    target_path: Seq<char>,
) -> Result<(Seq<char>, i32, Seq<Seq<char>>, Seq<Seq<char>>, Seq<Seq<char>>, Seq<char>), Seq<char>> {
    let chosen = if cs is Some { cs } else { me };
    match chosen {
        None => Err(no_model_identifier_message()),
        Some(i) => Ok((
            i.modelIdentifier@,
            2,
            Seq::<Seq<char>>::empty(),
            fmi2_sources(views(i.sourceFiles@)),
            seq!["include"@, "src/sources"@],
            target_path,
        )),
    }
}

/// The template values as a tuple, to compare with a specification.
pub open spec fn template_view(t: CMakeListsTemplate) -> (Seq<char>, i32, Seq<Seq<char>>, Seq<Seq<char>>, Seq<Seq<char>>, Seq<char>) {
    (t.model_identifier@, t.fmi_major_version, views(t.definitions@), views(t.sources@), views(t.include_dirs@), t.target_path@)
}

/// An executable result agrees with a specified one.
pub open spec fn matches_template(
    r: Result<CMakeListsTemplate, String>,
    s: Result<(Seq<char>, i32, Seq<Seq<char>>, Seq<Seq<char>>, Seq<Seq<char>>, Seq<char>), Seq<char>>,
) -> bool {
    match (r, s) {
        (Ok(t), Ok(v)) => template_view(t) == v,
        (Err(m), Err(e)) => m@ == e,
        _ => false,
    }
}

fn string_of(s: &str) -> (r: String)
    ensures
        r@ == s@,
{
    String::from_str(s)
}

/// Appends `"src/sources/" + name` for each name.
fn push_in_sources(out: &mut Vec<String>, names: &Vec<String>)
    ensures
        views(final(out)@) == views(old(out)@) + all_in_sources(views(names@)),
{
    let ghost start = old(out)@;
    let mut i: usize = 0;
    while i < names.len()
        invariant
            0 <= i <= names.len(),
            out@.len() == start.len() + i,
            forall|j: int| 0 <= j < start.len() ==> #[trigger] out@[j] == start[j],
            forall|j: int| 0 <= j < i ==> #[trigger] out@[start.len() + j]@ == in_sources(names@[j]@),
        decreases names.len() - i,
    {
        out.push(prefixed("src/sources/", &names[i]));
        i = i + 1;
    }
    assert(views(out@) =~= views(start) + all_in_sources(views(names@))) by {
        assert forall|j: int| 0 <= j < out@.len() implies #[trigger] views(out@)[j] == (views(start) + all_in_sources(views(names@)))[j] by {
            if j >= start.len() {
                assert(out@[start.len() + (j - start.len())]@ == in_sources(names@[j - start.len()]@));
            }
        }
    }
}

fn fmi2_template(interface: &InterfaceSources, target_path: String) -> (t: CMakeListsTemplate)
    ensures
        template_view(t) == (
            interface.modelIdentifier@,
            2i32,
            Seq::<Seq<char>>::empty(),
            fmi2_sources(views(interface.sourceFiles@)),
            seq!["include"@, "src/sources"@],
            target_path@,
        ),
{
    let mut sources: Vec<String> = Vec::new();
    sources.push(string_of("src/modelDescription.xml"));
    sources.push(string_of("include/fmi2Functions.h"));
    sources.push(string_of("include/fmi2FunctionTypes.h"));
    sources.push(string_of("include/fmi2TypesPlatform.h"));
    push_in_sources(&mut sources, &interface.sourceFiles);
    let mut include_dirs: Vec<String> = Vec::new();
    include_dirs.push(string_of("include"));
    include_dirs.push(string_of("src/sources"));
    let t = CMakeListsTemplate {
        model_identifier: interface.modelIdentifier.clone(),
        fmi_major_version: 2,
        definitions: Vec::new(),
        sources,
        include_dirs,
        target_path,
    };
    assert(views(t.definitions@) =~= Seq::<Seq<char>>::empty());
    assert(views(t.include_dirs@) =~= seq!["include"@, "src/sources"@]);
    t
}

/// What every FMI 2.0 project looks like, whichever interface supplies it: it
/// exists exactly when there is an interface; its model identifier and source
/// files are those of Co-Simulation where there is one, else of Model
/// Exchange; it is version 2, has no definitions, the include directories
/// `include` and `src/sources`, the model description and the three FMI
/// headers as its first sources, then each source file of the interface
/// under `src/sources/`, in order.
pub proof fn lemma_fmi2_cmake_lists_shape(
    cs: Option<InterfaceSources>,
    me: Option<InterfaceSources>,
    target_path: Seq<char>,
)
    ensures
        spec_fmi2_cmake_lists(cs, me, target_path) is Ok <==> (cs is Some || me is Some),
        spec_fmi2_cmake_lists(cs, me, target_path) matches Ok(t) ==> {
            let i = if cs is Some { cs->0 } else { me->0 };
            let files = i.sourceFiles@;
            &&& t.0 == i.modelIdentifier@
            &&& t.1 == 2
            &&& t.2.len() == 0
            &&& t.3.len() == 4 + files.len()
            &&& t.3[0] == "src/modelDescription.xml"@
            &&& t.3[1] == "include/fmi2Functions.h"@
            &&& t.3[2] == "include/fmi2FunctionTypes.h"@
            &&& t.3[3] == "include/fmi2TypesPlatform.h"@
            &&& forall|j: int| 0 <= j < files.len() ==> #[trigger] t.3[4 + j] == "src/sources/"@ + files[j]@
            &&& t.4 == seq!["include"@, "src/sources"@]
            &&& t.5 == target_path
        },
{
}

/// The values of the `CMakeLists.txt` of an FMI 2.0 project.
pub fn fmi2_cmake_lists(
    co_simulation: &Option<InterfaceSources>,
    model_exchange: &Option<InterfaceSources>,
    target_path: String,
) -> (r: Result<CMakeListsTemplate, String>)
    ensures
        matches_template(r, spec_fmi2_cmake_lists(*co_simulation, *model_exchange, target_path@)),
        r is Ok <==> (co_simulation is Some || model_exchange is Some),
        r matches Ok(t) ==> {
            let i = if co_simulation is Some { co_simulation->0 } else { model_exchange->0 };
            let files = i.sourceFiles@;
            &&& t.model_identifier@ == i.modelIdentifier@
            &&& t.fmi_major_version == 2
            &&& t.definitions@.len() == 0
            &&& t.sources@.len() == 4 + files.len()
            &&& t.sources@[0]@ == "src/modelDescription.xml"@
            &&& t.sources@[1]@ == "include/fmi2Functions.h"@
            &&& t.sources@[2]@ == "include/fmi2FunctionTypes.h"@
            &&& t.sources@[3]@ == "include/fmi2TypesPlatform.h"@
            &&& forall|j: int| 0 <= j < files.len() ==> #[trigger] t.sources@[4 + j]@ == "src/sources/"@ + files[j]@
            &&& t.include_dirs@.len() == 2
            &&& t.include_dirs@[0]@ == "include"@
            &&& t.include_dirs@[1]@ == "src/sources"@
            &&& t.target_path@ == target_path@
        },
{
    let r = if let Some(cs) = co_simulation {
        Ok(fmi2_template(cs, target_path))
    } else if let Some(me) = model_exchange {
        Ok(fmi2_template(me, target_path))
    } else {
        Err(string_of("No model identifier found in modelDescription.xml"))
    };
    proof {
        lemma_fmi2_cmake_lists_shape(*co_simulation, *model_exchange, target_path@);
        if r is Ok {
            let t = r->Ok_0;
            assert(views(t.include_dirs@).len() == t.include_dirs@.len());
            assert(views(t.include_dirs@)[0] == t.include_dirs@[0]@);
            assert(views(t.include_dirs@)[1] == t.include_dirs@[1]@);
            assert(views(t.sources@)[0] == t.sources@[0]@);
            assert(views(t.sources@)[1] == t.sources@[1]@);
            assert(views(t.sources@)[2] == t.sources@[2]@);
            assert(views(t.sources@)[3] == t.sources@[3]@);
            assert(views(t.definitions@).len() == t.definitions@.len());
            assert(views(t.sources@).len() == t.sources@.len());
            let i = if co_simulation is Some { co_simulation->0 } else { model_exchange->0 };
            assert forall|j: int| 0 <= j < i.sourceFiles@.len() implies #[trigger] t.sources@[4 + j]@ == "src/sources/"@ + i.sourceFiles@[j]@ by {
                assert(views(t.sources@)[4 + j] == t.sources@[4 + j]@);
                assert(views(i.sourceFiles@)[j] == i.sourceFiles@[j]@);
            }
        }
    }
    r
}

/// The three lists that each source file set adds to.
#[derive(Debug, Clone, Copy, PartialEq, Eq)]
pub enum SetPart {
    Definitions,
    IncludeDirs,
    Sources,
}

/// A preprocessor definition as the compiler takes it: `name=value`, or the
/// name alone where there is no value.
pub open spec fn definition_text(d: PreprocessorDefinition) -> Seq<char> {
    match d.value {
        Some(v) => d.name@ + "="@ + v@,
        None => d.name@,
    }
}

/// What one source file set adds to one list.
pub open spec fn set_items(set: SourceFileSet, part: SetPart) -> Seq<Seq<char>> {
    match part {
        SetPart::Definitions => set.preprocessorDefinitions@.map_values(
            |d: PreprocessorDefinition| definition_text(d),
        ),
        SetPart::IncludeDirs => set.includeDirectories@.map_values(
            |d: IncludeDirectory| in_sources(d.name@),
        ),
        SetPart::Sources => set.sourceFiles@.map_values(|f: SourceFile| in_sources(f.name@)),
    }
}

/// What source file sets add to one list, set after set.
pub open spec fn sets_items(sets: Seq<SourceFileSet>, part: SetPart) -> Seq<Seq<char>>
    decreases sets.len(),
{
    if sets.len() == 0 {
        Seq::<Seq<char>>::empty()
    } else {
        sets_items(sets.drop_last(), part) + set_items(sets.last(), part)
    }
}

/// What build configurations add to one list, configuration after
/// configuration.
pub open spec fn configurations_items(cs: Seq<BuildConfiguration>, part: SetPart) -> Seq<Seq<char>>
    decreases cs.len(),
{
    if cs.len() == 0 {
        Seq::<Seq<char>>::empty()
    } else {
        configurations_items(cs.drop_last(), part) + sets_items(cs.last().sourceFileSets@, part)
    }
}

/// The definitions that every FMI 3.0 project starts with; on Windows the
/// export macro is added.
pub open spec fn fmi3_base_definitions(windows: bool) -> Seq<Seq<char>> {
    let base = seq!["FMI3_OVERRIDE_FUNCTION_PREFIX"@, "FMI3_ACTUAL_FUNCTION_PREFIX=\"\""@];
    if windows {
        base.push("FMI3_Export=__declspec(dllexport)"@)
    } else {
        base
    }
}

/// The template values of an FMI 3.0 project: the model identifier of the
/// Co-Simulation interface where there is one, else of Model Exchange; the
/// definitions, include directories and sources of every source file set of
/// the build description, in order.
pub open spec fn spec_fmi3_cmake_lists(
    cs: Option<String>,
    me: Option<String>,
    bd: BuildDescription,
    target_path: Seq<char>,
    windows: bool,
) -> Result<(Seq<char>, i32, Seq<Seq<char>>, Seq<Seq<char>>, Seq<Seq<char>>, Seq<char>), Seq<char>> {
    let chosen = if cs is Some { cs } else { me };
    match chosen {
        None => Err(no_model_identifier_message()),
        Some(id) => Ok((
            id@,
            3,
            fmi3_base_definitions(windows) + configurations_items(bd.buildConfigurations@, SetPart::Definitions),
            seq!["src/modelDescription.xml"@] + configurations_items(bd.buildConfigurations@, SetPart::Sources),
            seq!["include"@] + configurations_items(bd.buildConfigurations@, SetPart::IncludeDirs),
            target_path,
        )),
    }
}

fn definition_string(d: &PreprocessorDefinition) -> (r: String)
    ensures
        r@ == definition_text(*d),
{
    let mut r = d.name.clone();
    if let Some(v) = &d.value {
        push_char(&mut r, '=');
        r.append(v.as_str());
        proof {
            reveal_strlit("=");
            assert(r@ =~= definition_text(*d));
        }
    }
    r
}

fn push_set_items(
    defs: &mut Vec<String>,
    incs: &mut Vec<String>,
    srcs: &mut Vec<String>,
    set: &SourceFileSet,
)
    ensures
        views(final(defs)@) == views(old(defs)@) + set_items(*set, SetPart::Definitions),
        views(final(incs)@) == views(old(incs)@) + set_items(*set, SetPart::IncludeDirs),
        views(final(srcs)@) == views(old(srcs)@) + set_items(*set, SetPart::Sources),
{
    let ghost d0 = defs@;
    let ghost i0 = incs@;
    let ghost s0 = srcs@;
    let ds = &set.preprocessorDefinitions;
    let mut i: usize = 0;
    while i < ds.len()
        invariant
            0 <= i <= ds.len(),
            defs@.len() == d0.len() + i,
            forall|j: int| 0 <= j < d0.len() ==> #[trigger] defs@[j] == d0[j],
            forall|j: int| 0 <= j < i ==> #[trigger] defs@[d0.len() + j]@ == definition_text(ds@[j]),
        decreases ds.len() - i,
    {
        defs.push(definition_string(&ds[i]));
        i = i + 1;
    }
    assert(views(defs@) =~= views(d0) + set_items(*set, SetPart::Definitions)) by {
        assert forall|j: int| d0.len() <= j < defs@.len() implies #[trigger] defs@[j]@ == definition_text(ds@[j - d0.len()]) by {
            assert(defs@[d0.len() + (j - d0.len())]@ == definition_text(ds@[j - d0.len()]));
        }
    }
    let is = &set.includeDirectories;
    let mut i: usize = 0;
    while i < is.len()
        invariant
            0 <= i <= is.len(),
            incs@.len() == i0.len() + i,
            forall|j: int| 0 <= j < i0.len() ==> #[trigger] incs@[j] == i0[j],
            forall|j: int| 0 <= j < i ==> #[trigger] incs@[i0.len() + j]@ == in_sources(is@[j].name@),
        decreases is.len() - i,
    {
        incs.push(prefixed("src/sources/", &is[i].name));
        i = i + 1;
    }
    assert(views(incs@) =~= views(i0) + set_items(*set, SetPart::IncludeDirs)) by {
        assert forall|j: int| i0.len() <= j < incs@.len() implies #[trigger] incs@[j]@ == in_sources(is@[j - i0.len()].name@) by {
            assert(incs@[i0.len() + (j - i0.len())]@ == in_sources(is@[j - i0.len()].name@));
        }
    }
    let fs = &set.sourceFiles;
    let mut i: usize = 0;
    while i < fs.len()
        invariant
            0 <= i <= fs.len(),
            srcs@.len() == s0.len() + i,
            forall|j: int| 0 <= j < s0.len() ==> #[trigger] srcs@[j] == s0[j],
            forall|j: int| 0 <= j < i ==> #[trigger] srcs@[s0.len() + j]@ == in_sources(fs@[j].name@),
        decreases fs.len() - i,
    {
        srcs.push(prefixed("src/sources/", &fs[i].name));
        i = i + 1;
    }
    assert(views(srcs@) =~= views(s0) + set_items(*set, SetPart::Sources)) by {
        assert forall|j: int| s0.len() <= j < srcs@.len() implies #[trigger] srcs@[j]@ == in_sources(fs@[j - s0.len()].name@) by {
            assert(srcs@[s0.len() + (j - s0.len())]@ == in_sources(fs@[j - s0.len()].name@));
        }
    }
}

fn push_sets_items(
    defs: &mut Vec<String>,
    incs: &mut Vec<String>,
    srcs: &mut Vec<String>,
    sets: &Vec<SourceFileSet>,
)
    ensures
        views(final(defs)@) == views(old(defs)@) + sets_items(sets@, SetPart::Definitions),
        views(final(incs)@) == views(old(incs)@) + sets_items(sets@, SetPart::IncludeDirs),
        views(final(srcs)@) == views(old(srcs)@) + sets_items(sets@, SetPart::Sources),
{
    let ghost d0 = views(defs@);
    let ghost i0 = views(incs@);
    let ghost s0 = views(srcs@);
    let mut k: usize = 0;
    assert(d0 + sets_items(sets@.take(0), SetPart::Definitions) =~= d0);
    assert(i0 + sets_items(sets@.take(0), SetPart::IncludeDirs) =~= i0);
    assert(s0 + sets_items(sets@.take(0), SetPart::Sources) =~= s0);
    while k < sets.len()
        invariant
            0 <= k <= sets.len(),
            views(defs@) == d0 + sets_items(sets@.take(k as int), SetPart::Definitions),
            views(incs@) == i0 + sets_items(sets@.take(k as int), SetPart::IncludeDirs),
            views(srcs@) == s0 + sets_items(sets@.take(k as int), SetPart::Sources),
        decreases sets.len() - k,
    {
        push_set_items(defs, incs, srcs, &sets[k]);
        proof {
            let t = sets@.take(k + 1);
            assert(t.drop_last() =~= sets@.take(k as int));
            assert(t.last() == sets@[k as int]);
            assert(views(defs@) =~= d0 + sets_items(t, SetPart::Definitions));
            assert(views(incs@) =~= i0 + sets_items(t, SetPart::IncludeDirs));
            assert(views(srcs@) =~= s0 + sets_items(t, SetPart::Sources));
        }
        k = k + 1;
    }
    assert(sets@.take(sets.len() as int) =~= sets@);
}

fn push_configurations_items(
    defs: &mut Vec<String>,
    incs: &mut Vec<String>,
    srcs: &mut Vec<String>,
    cs: &Vec<BuildConfiguration>,
)
    ensures
        views(final(defs)@) == views(old(defs)@) + configurations_items(cs@, SetPart::Definitions),
        views(final(incs)@) == views(old(incs)@) + configurations_items(cs@, SetPart::IncludeDirs),
        views(final(srcs)@) == views(old(srcs)@) + configurations_items(cs@, SetPart::Sources),
{
    let ghost d0 = views(defs@);
    let ghost i0 = views(incs@);
    let ghost s0 = views(srcs@);
    let mut k: usize = 0;
    assert(d0 + configurations_items(cs@.take(0), SetPart::Definitions) =~= d0);
    assert(i0 + configurations_items(cs@.take(0), SetPart::IncludeDirs) =~= i0);
    assert(s0 + configurations_items(cs@.take(0), SetPart::Sources) =~= s0);
    while k < cs.len()
        invariant
            0 <= k <= cs.len(),
            views(defs@) == d0 + configurations_items(cs@.take(k as int), SetPart::Definitions),
            views(incs@) == i0 + configurations_items(cs@.take(k as int), SetPart::IncludeDirs),
            views(srcs@) == s0 + configurations_items(cs@.take(k as int), SetPart::Sources),
        decreases cs.len() - k,
    {
        push_sets_items(defs, incs, srcs, &cs[k].sourceFileSets);
        proof {
            let t = cs@.take(k + 1);
            assert(t.drop_last() =~= cs@.take(k as int));
            assert(t.last() == cs@[k as int]);
            assert(views(defs@) =~= d0 + configurations_items(t, SetPart::Definitions));
            assert(views(incs@) =~= i0 + configurations_items(t, SetPart::IncludeDirs));
            assert(views(srcs@) =~= s0 + configurations_items(t, SetPart::Sources));
        }
        k = k + 1;
    }
    assert(cs@.take(cs.len() as int) =~= cs@);
}

/// The values of the `CMakeLists.txt` of an FMI 3.0 project, from the model
/// identifiers of the model description's interfaces and the build
/// description; `windows` adds the export macro that Windows needs.
pub fn fmi3_cmake_lists(
    co_simulation: &Option<String>,
    model_exchange: &Option<String>,
    build_description: &BuildDescription,
    target_path: String,
    windows: bool,
) -> (r: Result<CMakeListsTemplate, String>)
    ensures
        matches_template(
            r,
            spec_fmi3_cmake_lists(*co_simulation, *model_exchange, *build_description, target_path@, windows),
        ),
        r is Ok <==> (co_simulation is Some || model_exchange is Some),
        r matches Ok(t) ==> {
            &&& t.model_identifier@ == (if co_simulation is Some { co_simulation->0 } else { model_exchange->0 })@
            &&& t.fmi_major_version == 3
            &&& t.target_path@ == target_path@
            &&& t.definitions@.len() >= 2
            &&& t.definitions@[0]@ == "FMI3_OVERRIDE_FUNCTION_PREFIX"@
            &&& t.definitions@[1]@ == "FMI3_ACTUAL_FUNCTION_PREFIX=\"\""@
            &&& windows ==> t.definitions@.len() >= 3 && t.definitions@[2]@ == "FMI3_Export=__declspec(dllexport)"@
            &&& t.sources@.len() >= 1 && t.sources@[0]@ == "src/modelDescription.xml"@
            &&& t.include_dirs@.len() >= 1 && t.include_dirs@[0]@ == "include"@
        },
{
    let r = assemble_fmi3_cmake_lists(co_simulation, model_exchange, build_description, target_path, windows);
    proof {
        lemma_fmi3_cmake_lists_platform(*co_simulation, *model_exchange, *build_description, target_path@);
        if r is Ok {
            let t = r->Ok_0;
            assert(views(t.definitions@).len() == t.definitions@.len());
            assert(views(t.definitions@)[0] == t.definitions@[0]@);
            assert(views(t.definitions@)[1] == t.definitions@[1]@);
            if windows {
                assert(views(t.definitions@)[2] == t.definitions@[2]@);
            }
            assert(views(t.sources@)[0] == t.sources@[0]@);
            assert(views(t.include_dirs@)[0] == t.include_dirs@[0]@);
        }
    }
    r
}

fn assemble_fmi3_cmake_lists(
    co_simulation: &Option<String>,
    model_exchange: &Option<String>,
    build_description: &BuildDescription,
    target_path: String,
    windows: bool,
) -> (r: Result<CMakeListsTemplate, String>)
    ensures
        matches_template(
            r,
            spec_fmi3_cmake_lists(*co_simulation, *model_exchange, *build_description, target_path@, windows),
        ),
{
    let mut definitions: Vec<String> = Vec::new();
    definitions.push(string_of("FMI3_OVERRIDE_FUNCTION_PREFIX"));
    definitions.push(string_of("FMI3_ACTUAL_FUNCTION_PREFIX=\"\""));
    if windows {
        definitions.push(string_of("FMI3_Export=__declspec(dllexport)"));
    }
    assert(views(definitions@) =~= fmi3_base_definitions(windows));
    let mut include_dirs: Vec<String> = Vec::new();
    include_dirs.push(string_of("include"));
    let mut sources: Vec<String> = Vec::new();
    sources.push(string_of("src/modelDescription.xml"));
    assert(views(include_dirs@) =~= seq!["include"@]);
    assert(views(sources@) =~= seq!["src/modelDescription.xml"@]);
    push_configurations_items(
        &mut definitions,
        &mut include_dirs,
        &mut sources,
        &build_description.buildConfigurations,
    );
    let model_identifier = if let Some(cs) = co_simulation {
        cs.clone()
    } else if let Some(me) = model_exchange {
        me.clone()
    } else {
        return Err(string_of("No model identifier found in modelDescription.xml"));
    };
    Ok(CMakeListsTemplate {
        model_identifier,
        fmi_major_version: 3,
        definitions,
        sources,
        include_dirs,
        target_path,
    })
}

pub proof fn lemma_sets_items_append(s1: Seq<SourceFileSet>, s2: Seq<SourceFileSet>, part: SetPart)
    ensures
        sets_items(s1 + s2, part) == sets_items(s1, part) + sets_items(s2, part),
    decreases s2.len(),
{
    if s2.len() == 0 {
        assert(s1 + s2 =~= s1);
        assert(sets_items(s1, part) + sets_items(s2, part) =~= sets_items(s1, part));
    } else {
        lemma_sets_items_append(s1, s2.drop_last(), part);
        assert((s1 + s2).drop_last() =~= s1 + s2.drop_last());
        assert((s1 + s2).last() == s2.last());
        assert(sets_items(s1 + s2, part) =~= sets_items(s1, part) + sets_items(s2, part));
    }
}

pub proof fn lemma_configurations_items_append(c1: Seq<BuildConfiguration>, c2: Seq<BuildConfiguration>, part: SetPart)
    ensures
        configurations_items(c1 + c2, part) == configurations_items(c1, part) + configurations_items(c2, part),
    decreases c2.len(),
{
    if c2.len() == 0 {
        assert(c1 + c2 =~= c1);
        assert(configurations_items(c1, part) + configurations_items(c2, part) =~= configurations_items(c1, part));
    } else {
        lemma_configurations_items_append(c1, c2.drop_last(), part);
        assert((c1 + c2).drop_last() =~= c1 + c2.drop_last());
        assert((c1 + c2).last() == c2.last());
        assert(configurations_items(c1 + c2, part) =~= configurations_items(c1, part) + configurations_items(c2, part));
    }
}

pub proof fn lemma_sets_items_one(sets: Seq<SourceFileSet>, part: SetPart)
    requires
        sets.len() == 1,
    ensures
        sets_items(sets, part) == set_items(sets[0], part),
{
    assert(sets.drop_last() =~= Seq::<SourceFileSet>::empty());
    assert(sets_items(sets.drop_last(), part) =~= Seq::<Seq<char>>::empty());
    assert(sets_items(sets, part) =~= set_items(sets[0], part));
}

pub proof fn lemma_configurations_items_one(c: Seq<BuildConfiguration>, part: SetPart)
    requires
        c.len() == 1,
    ensures
        configurations_items(c, part) == sets_items(c[0].sourceFileSets@, part),
{
    assert(c.drop_last() =~= Seq::<BuildConfiguration>::empty());
    assert(configurations_items(c.drop_last(), part) =~= Seq::<Seq<char>>::empty());
    assert(configurations_items(c, part) =~= sets_items(c[0].sourceFileSets@, part));
}

pub proof fn lemma_configurations_items_two(c: Seq<BuildConfiguration>, part: SetPart)
    requires
        c.len() == 2,
    ensures
        configurations_items(c, part) == sets_items(c[0].sourceFileSets@, part) + sets_items(c[1].sourceFileSets@, part),
{
    let d = c.drop_last();
    assert(d.len() == 1 && d[0] == c[0]);
    lemma_configurations_items_one(d, part);
}

/// The platform only adds the export definition: with or without it, an FMI
/// 3.0 project exists for the same inputs (exactly when there is an
/// interface), takes its model identifier from Co-Simulation where there is
/// one, else from Model Exchange, is version 3, and has the same sources and
/// include directories; its definitions start with the two prefix macros, and
/// on Windows the export macro comes third, before the same remaining
/// definitions.
pub proof fn lemma_fmi3_cmake_lists_platform(
    cs: Option<String>,
    me: Option<String>,
    bd: BuildDescription,
    target_path: Seq<char>,
)
    ensures
        spec_fmi3_cmake_lists(cs, me, bd, target_path, false) is Ok <==> (cs is Some || me is Some),
        spec_fmi3_cmake_lists(cs, me, bd, target_path, true) is Ok <==> (cs is Some || me is Some),
        (cs is Some || me is Some) ==> {
            let a = spec_fmi3_cmake_lists(cs, me, bd, target_path, false)->Ok_0;
            let b = spec_fmi3_cmake_lists(cs, me, bd, target_path, true)->Ok_0;
            &&& a.0 == (if cs is Some { cs->0 } else { me->0 })@
            &&& b.0 == a.0
            &&& a.1 == 3 && b.1 == 3
            &&& b.3 == a.3
            &&& b.4 == a.4
            &&& a.5 == target_path && b.5 == target_path
            &&& a.2.len() >= 2
            &&& a.2[0] == "FMI3_OVERRIDE_FUNCTION_PREFIX"@
            &&& a.2[1] == "FMI3_ACTUAL_FUNCTION_PREFIX=\"\""@
            &&& b.2 == a.2.insert(2, "FMI3_Export=__declspec(dllexport)"@)
            &&& a.3.len() >= 1 && a.3[0] == "src/modelDescription.xml"@
            &&& a.4.len() >= 1 && a.4[0] == "include"@
        },
{
    if cs is Some || me is Some {
        let a = spec_fmi3_cmake_lists(cs, me, bd, target_path, false)->Ok_0;
        let b = spec_fmi3_cmake_lists(cs, me, bd, target_path, true)->Ok_0;
        assert(b.2 =~= a.2.insert(2, "FMI3_Export=__declspec(dllexport)"@));
    }
}

/// A build description without configurations gives only the fixed entries:
/// the two prefix macros (and the export macro on Windows), the model
/// description as the one source and `include` as the one include directory.
pub proof fn lemma_fmi3_cmake_lists_no_configuration(
    cs: Option<String>,
    me: Option<String>,
    bd: BuildDescription,
    target_path: Seq<char>,
)
    requires
        cs is Some || me is Some,
        bd.buildConfigurations@.len() == 0,
    ensures
        ({
            let a = spec_fmi3_cmake_lists(cs, me, bd, target_path, false)->Ok_0;
            &&& a.2 == seq!["FMI3_OVERRIDE_FUNCTION_PREFIX"@, "FMI3_ACTUAL_FUNCTION_PREFIX=\"\""@]
            &&& a.3 == seq!["src/modelDescription.xml"@]
            &&& a.4 == seq!["include"@]
        }),
{
    let a = spec_fmi3_cmake_lists(cs, me, bd, target_path, false)->Ok_0;
    assert(a.2 =~= seq!["FMI3_OVERRIDE_FUNCTION_PREFIX"@, "FMI3_ACTUAL_FUNCTION_PREFIX=\"\""@]);
    assert(a.3 =~= seq!["src/modelDescription.xml"@]);
    assert(a.4 =~= seq!["include"@]);
}

/// With one configuration of one source file set, the project has after the
/// fixed entries each preprocessor definition of the set (`name=value`, or
/// the name where there is no value), each include directory of the set
/// under `src/sources/`, and each source file of the set under
/// `src/sources/`, in the order of the set.
pub proof fn lemma_fmi3_cmake_lists_one_set(
    cs: Option<String>,
    me: Option<String>,
    bd: BuildDescription,
    target_path: Seq<char>,
)
    requires
        cs is Some || me is Some,
        bd.buildConfigurations@.len() == 1,
        bd.buildConfigurations@[0].sourceFileSets@.len() == 1,
    ensures
        ({
            let a = spec_fmi3_cmake_lists(cs, me, bd, target_path, false)->Ok_0;
            let set = bd.buildConfigurations@[0].sourceFileSets@[0];
            let defs = set.preprocessorDefinitions@;
            let dirs = set.includeDirectories@;
            let files = set.sourceFiles@;
            &&& a.2.len() == 2 + defs.len()
            &&& forall|j: int| 0 <= j < defs.len() ==> #[trigger] a.2[2 + j] == (match defs[j].value {
                Some(v) => defs[j].name@ + "="@ + v@,
                None => defs[j].name@,
            })
            &&& a.4.len() == 1 + dirs.len()
            &&& forall|j: int| 0 <= j < dirs.len() ==> #[trigger] a.4[1 + j] == "src/sources/"@ + dirs[j].name@
            &&& a.3.len() == 1 + files.len()
            &&& forall|j: int| 0 <= j < files.len() ==> #[trigger] a.3[1 + j] == "src/sources/"@ + files[j].name@
        }),
{
    let c = bd.buildConfigurations@;
    let sets = c[0].sourceFileSets@;
    lemma_configurations_items_one(c, SetPart::Definitions);
    lemma_configurations_items_one(c, SetPart::IncludeDirs);
    lemma_configurations_items_one(c, SetPart::Sources);
    lemma_sets_items_one(sets, SetPart::Definitions);
    lemma_sets_items_one(sets, SetPart::IncludeDirs);
    lemma_sets_items_one(sets, SetPart::Sources);
}

/// The lists of a build description whose configurations are those of `bd1`
/// followed by those of `bd2` are the lists of `bd1` followed by what `bd2`
/// adds after the fixed entries.
pub proof fn lemma_fmi3_cmake_lists_concat(
    cs: Option<String>,
    me: Option<String>,
    bd1: BuildDescription,
    bd2: BuildDescription,
    bd: BuildDescription,
    target_path: Seq<char>,
)
    requires
        cs is Some || me is Some,
        bd.buildConfigurations@ == bd1.buildConfigurations@ + bd2.buildConfigurations@,
    ensures
        ({
            let a = spec_fmi3_cmake_lists(cs, me, bd, target_path, false)->Ok_0;
            let a1 = spec_fmi3_cmake_lists(cs, me, bd1, target_path, false)->Ok_0;
            let a2 = spec_fmi3_cmake_lists(cs, me, bd2, target_path, false)->Ok_0;
            &&& a.2 == a1.2 + a2.2.skip(2)
            &&& a.3 == a1.3 + a2.3.skip(1)
            &&& a.4 == a1.4 + a2.4.skip(1)
        }),
{
    let c1 = bd1.buildConfigurations@;
    let c2 = bd2.buildConfigurations@;
    lemma_configurations_items_append(c1, c2, SetPart::Definitions);
    lemma_configurations_items_append(c1, c2, SetPart::IncludeDirs);
    lemma_configurations_items_append(c1, c2, SetPart::Sources);
    let a = spec_fmi3_cmake_lists(cs, me, bd, target_path, false)->Ok_0;
    let a1 = spec_fmi3_cmake_lists(cs, me, bd1, target_path, false)->Ok_0;
    let a2 = spec_fmi3_cmake_lists(cs, me, bd2, target_path, false)->Ok_0;
    assert(a.2 =~= a1.2 + a2.2.skip(2));
    assert(a.3 =~= a1.3 + a2.3.skip(1));
    assert(a.4 =~= a1.4 + a2.4.skip(1));
}

/// Splitting the source file sets of a configuration over two
/// configurations changes nothing: only the order of the sets counts.
pub proof fn lemma_fmi3_cmake_lists_split_sets(
    cs: Option<String>,
    me: Option<String>,
    bd: BuildDescription,
    bd_split: BuildDescription,
    target_path: Seq<char>,
    windows: bool,
)
    requires
        bd.buildConfigurations@.len() == 1,
        bd_split.buildConfigurations@.len() == 2,
        bd.buildConfigurations@[0].sourceFileSets@ == bd_split.buildConfigurations@[0].sourceFileSets@
            + bd_split.buildConfigurations@[1].sourceFileSets@,
    ensures
        spec_fmi3_cmake_lists(cs, me, bd, target_path, windows) == spec_fmi3_cmake_lists(cs, me, bd_split, target_path, windows),
{
    let c = bd.buildConfigurations@;
    let d = bd_split.buildConfigurations@;
    lemma_configurations_items_one(c, SetPart::Definitions);
    lemma_configurations_items_one(c, SetPart::IncludeDirs);
    lemma_configurations_items_one(c, SetPart::Sources);
    lemma_configurations_items_two(d, SetPart::Definitions);
    lemma_configurations_items_two(d, SetPart::IncludeDirs);
    lemma_configurations_items_two(d, SetPart::Sources);
    let s1 = d[0].sourceFileSets@;
    let s2 = d[1].sourceFileSets@;
    lemma_sets_items_append(s1, s2, SetPart::Definitions);
    lemma_sets_items_append(s1, s2, SetPart::IncludeDirs);
    lemma_sets_items_append(s1, s2, SetPart::Sources);
    assert(configurations_items(c, SetPart::Definitions) =~= configurations_items(d, SetPart::Definitions));
    assert(configurations_items(c, SetPart::IncludeDirs) =~= configurations_items(d, SetPart::IncludeDirs));
    assert(configurations_items(c, SetPart::Sources) =~= configurations_items(d, SetPart::Sources));
}

} // verus!
