//! Picking the compiled model that an image is linked with.
//!
//! The model compiler leaves a header `nrf_axon_model_<name>_.h`, which defines
//! a descriptor `model_<name>`. The build finds the header by its name and
//! compiles a small C file that includes it and hands the descriptor out.

use vstd::prelude::*;
use vstd::string::*;

verus! {

/// The header of the model called `name`.
pub open spec fn header_of(name: Seq<char>) -> Seq<char> {
    "nrf_axon_model_"@ + name + "_.h"@
}

/// The model whose header bears this file name, if it is a model's header.
pub open spec fn model_of(file: Seq<char>) -> Option<Seq<char>> {
    let name = file.subrange(15, file.len() - 3);
    if file.len() > 18 && file == header_of(name) {
        Some(name)
    } else {
        None
    }
}

/// The first model among some file names. The search ends at a name that is not
/// readable as text.
pub open spec fn first_model(files: Seq<Option<Seq<char>>>) -> Option<Seq<char>>
    decreases files.len(),
{
    if files.len() == 0 {
        None
    } else {
        match files[0] {
            None => None,
            Some(file) => match model_of(file) {
                Some(name) => Some(name),
                None => first_model(files.drop_first()),
            },
        }
    }
}

/// File names as values.
pub open spec fn files_of(files: Seq<Option<String>>) -> Seq<Option<Seq<char>>> {
    Seq::new(
        files.len(),
        |i: int|
            match files[i] {
                Some(file) => Some(file@),
                None => None,
            },
    )
}

/// A text as a value, if there is one.
pub open spec fn text_of(text: Option<String>) -> Option<Seq<char>> {
    match text {
        Some(text) => Some(text@),
        None => None,
    }
}

/// The model whose header bears this file name, if it is a model's header.
pub fn model_name(file: &str) -> (name: Option<String>)
    ensures
        text_of(name) == model_of(file@),
{
    proof {
        reveal_strlit("nrf_axon_model_");
        reveal_strlit("_.h");
    }
    let len: usize = file.unicode_len();
    if len <= 18 {
        return None;
    }
    let prefix: String = file.substring_char(0, 15).to_owned();
    let suffix: String = file.substring_char(len - 3, len).to_owned();
    let name: String = file.substring_char(15, len - 3).to_owned();
    assert(file@ =~= prefix@ + name@ + suffix@);
    if prefix == "nrf_axon_model_".to_owned() && suffix == "_.h".to_owned() {
        Some(name)
    } else {
        proof {
            if file@ == header_of(name@) {
                assert(prefix@ =~= "nrf_axon_model_"@);
                assert(suffix@ =~= "_.h"@);
            }
        }
        None
    }
}

/// The model to link, given the file names in the directory of generated headers
/// in the order in which they are listed; a name that is not readable as text is
/// nothing.
pub fn find_generated_model(files: &Vec<Option<String>>) -> (name: Option<String>)
    ensures
        text_of(name) == first_model(files_of(files@)),
{
    let ghost all = files_of(files@);
    assert(all.skip(0) =~= all);
    for i in 0..files.len()
        invariant
            all == files_of(files@),
            first_model(all) == first_model(all.skip(i as int)),
    {
        assert(all.skip(i as int).drop_first() =~= all.skip(i + 1));
        match &files[i] {
            None => {
                return None;
            },
            Some(file) => {
                let name = model_name(file.as_str());
                if name.is_some() {
                    return name;
                }
            },
        }
    }
    None
}

/// The C file that includes a model's header and hands its descriptor out.
pub fn model_glue(name: &str) -> (text: String)
    ensures
        text@ == "#include <assert.h>\n#include <stddef.h>\n#include \"axon/nrf_axon_platform.h\"\n#include \"drivers/axon/nrf_axon_nn_infer.h\"\n#include \"generated/"@
            + header_of(name@)
            + "\"\nconst nrf_axon_nn_compiled_model_s *axon_active_model(void) {\n\treturn &model_"@
            + name@ + ";\n}\n"@,
{
    let mut text: String = String::new();
    text.append(
        "#include <assert.h>\n#include <stddef.h>\n#include \"axon/nrf_axon_platform.h\"\n#include \"drivers/axon/nrf_axon_nn_infer.h\"\n#include \"generated/",
    );
    text.append("nrf_axon_model_");
    text.append(name);
    text.append("_.h");
    text.append(
        "\"\nconst nrf_axon_nn_compiled_model_s *axon_active_model(void) {\n\treturn &model_",
    );
    text.append(name);
    text.append(";\n}\n");
    text
}

/// The header that the compiler leaves for a model is found under the model's
/// own name.
pub proof fn law_header_gives_the_model_back(name: Seq<char>)
    requires
        name.len() > 0,
    ensures
        model_of(header_of(name)) == Some(name),
{
    reveal_strlit("nrf_axon_model_");
    reveal_strlit("_.h");
    let file = header_of(name);
    assert(file.subrange(15, file.len() - 3) =~= name);
}

/// A file is the header of the model called `name` exactly when it is called so, and
/// a model has a name.
pub proof fn law_headers_are_told_by_their_names(file: Seq<char>, name: Seq<char>)
    ensures
        model_of(file) == Some(name) <==> name.len() > 0 && file == "nrf_axon_model_"@ + name
            + "_.h"@,
{
    reveal_strlit("nrf_axon_model_");
    reveal_strlit("_.h");
    if name.len() > 0 && file == "nrf_axon_model_"@ + name + "_.h"@ {
        assert(file.subrange(15, file.len() - 3) =~= name);
    }
}

/// Wherever the first header stands, its model is the one found, as long as all
/// names before it are readable as text. Nothing is found if there is no header, or
/// if a name that is not readable comes before the first.
pub proof fn law_first_header_is_found(files: Seq<Option<String>>, k: int, name: Seq<char>)
    requires
        0 <= k <= files.len(),
        forall|i: int|
            0 <= i < k ==> ((#[trigger] files[i]) matches Some(file) && forall|n: Seq<char>|
                n.len() > 0 ==> file@ != #[trigger] ("nrf_axon_model_"@ + n + "_.h"@)),
    ensures
        k == files.len() ==> first_model(files_of(files)) == None::<Seq<char>>,
        k < files.len() && files[k] is None ==> first_model(files_of(files)) == None::<Seq<char>>,
        k < files.len() ==> (files[k] matches Some(file) ==> (name.len() > 0 && file@
            == "nrf_axon_model_"@ + name + "_.h"@ ==> first_model(files_of(files)) == Some(name))),
    decreases files.len(),
{
    let all = files_of(files);
    if k > 0 {
        let rest = files.drop_first();
        assert forall|i: int| 0 <= i < k - 1 implies ((#[trigger] rest[i]) matches Some(file)
            && forall|n: Seq<char>|
            n.len() > 0 ==> file@ != #[trigger] ("nrf_axon_model_"@ + n + "_.h"@)) by {
            assert(rest[i] == files[i + 1]);
        }
        law_first_header_is_found(rest, k - 1, name);
        assert(all.drop_first() =~= files_of(rest));
        assert(files[0] is Some);
        let file = files[0]->0@;
        if model_of(file) is Some {
            let n = model_of(file)->0;
            law_headers_are_told_by_their_names(file, n);
            assert(file != "nrf_axon_model_"@ + n + "_.h"@);
        }
        if k < files.len() {
            assert(rest[k - 1] == files[k]);
        }
    } else if files.len() > 0 && files[0] is Some {
        law_headers_are_told_by_their_names(files[0]->0@, name);
    }
}

/// A found name is handed out as it is, and none as none.
pub proof fn law_text_is_handed_out(text: String)
    ensures
        text_of(Some(text)) == Some(text@),
        text_of(None) == None::<Seq<char>>,
{
}

} // verus!
