use nrf54_audio::model::{find_generated_model, model_glue, model_name};

fn files(list: &[Option<&str>]) -> Vec<Option<String>> {
    list.iter().map(|n| n.map(String::from)).collect()
}

#[test]
fn header_names() {
    assert_eq!(model_name("nrf_axon_model_kws_.h"), Some("kws".to_string()));
    assert_eq!(model_name("nrf_axon_model_hello_axon_.h"), Some("hello_axon".to_string()));
    assert_eq!(model_name("nrf_axon_model___.h"), Some("_".to_string()));
    assert_eq!(model_name("nrf_axon_model_é_.h"), Some("é".to_string()));
    assert_eq!(model_name("nrf_axon_model__.h"), None);
    assert_eq!(model_name("nrf_axon_model_.h"), None);
    assert_eq!(model_name("nrf_axon_model_kws.h"), None);
    assert_eq!(model_name("xnrf_axon_model_kws_.h"), None);
    assert_eq!(model_name("nrf_axon_model_kws_.hh"), None);
    assert_eq!(model_name(""), None);
}

#[test]
fn the_first_model_is_linked() {
    assert_eq!(find_generated_model(&files(&[])), None);
    assert_eq!(find_generated_model(&files(&[Some("testvec.rs")])), None);
    assert_eq!(
        find_generated_model(&files(&[
            Some(".gitignore"),
            Some("nrf_axon_model_a_.h"),
            Some("nrf_axon_model_b_.h"),
        ])),
        Some("a".to_string())
    );
    assert_eq!(find_generated_model(&files(&[None, Some("nrf_axon_model_a_.h")])), None);
    assert_eq!(
        find_generated_model(&files(&[Some("nrf_axon_model_a_.h"), None])),
        Some("a".to_string())
    );
}

#[test]
fn glue() {
    assert_eq!(
        model_glue("kws"),
        "#include <assert.h>\n\
         #include <stddef.h>\n\
         #include \"axon/nrf_axon_platform.h\"\n\
         #include \"drivers/axon/nrf_axon_nn_infer.h\"\n\
         #include \"generated/nrf_axon_model_kws_.h\"\n\
         const nrf_axon_nn_compiled_model_s *axon_active_model(void) {\n\
         \treturn &model_kws;\n\
         }\n"
    );
}
