use neuralnet::activation::{
    from_string, from_uppercase, Activation, ActivationKind, Relu, Sigmoid, Softmax, Tanh,
};
use neuralnet::registry::Registry;

#[test]
fn from_string_should_return_activation() {
    assert_eq!(
        from_string("Tanh".to_string()).unwrap().get_name(),
        "Tanh".to_string()
    );
    assert_eq!(
        from_string("Relu".to_string()).unwrap().get_name(),
        "Relu".to_string()
    );
    assert_eq!(
        from_string("Sigmoid".to_string()).unwrap().get_name(),
        "Sigmoid".to_string()
    );
}

#[test]
#[should_panic(expected = "unknown activation 'Unknown'")]
fn activation_from_string_should_raise_error_when_name_is_unknown() {
    match from_string("Unknown".to_string()) {
        Ok(_) => {}
        Err(e) => panic!("{}", e.message()),
    }
}

#[test]
fn relu_get_name_should_return_struct_name() {
    assert_eq!(Relu.get_name(), "Relu");
}

#[test]
fn sigmoid_get_name_should_return_struct_name() {
    assert_eq!(Sigmoid.get_name(), "Sigmoid");
}

#[test]
fn softmax_get_name_should_return_struct_name() {
    assert_eq!(Softmax.get_name(), "Softmax");
}

#[test]
fn tanh_get_name_should_return_struct_name() {
    assert_eq!(Tanh.get_name(), "Tanh");
}

#[test]
fn activation_names_ignore_case() {
    assert_eq!(from_string("tanh".to_string()).unwrap(), ActivationKind::Tanh);
    assert_eq!(from_string("RELU".to_string()).unwrap(), ActivationKind::Relu);
    assert_eq!(from_string("sIgMoId".to_string()).unwrap(), ActivationKind::Sigmoid);
    // the long s has S as its upper-case form
    assert_eq!(from_string("\u{17f}igmoid".to_string()).unwrap(), ActivationKind::Sigmoid);
}

#[test]
fn softmax_is_not_in_the_table() {
    let e = from_string("Softmax".to_string()).unwrap_err();
    assert_eq!(e.registry, Registry::Activation);
    assert_eq!(e.name, "Softmax");
    assert_eq!(e.message(), "unknown activation 'Softmax'");
}

#[test]
fn from_uppercase_is_exact() {
    assert_eq!(from_uppercase("TANH"), Some(ActivationKind::Tanh));
    assert_eq!(from_uppercase("RELU"), Some(ActivationKind::Relu));
    assert_eq!(from_uppercase("SIGMOID"), Some(ActivationKind::Sigmoid));
    assert_eq!(from_uppercase("Tanh"), None);
    assert_eq!(from_uppercase("SOFTMAX"), None);
    assert_eq!(from_uppercase(""), None);
}

#[test]
fn kinds_of_the_activations() {
    assert_eq!(Relu.kind(), ActivationKind::Relu);
    assert_eq!(Sigmoid.kind(), ActivationKind::Sigmoid);
    assert_eq!(Softmax.kind(), ActivationKind::Softmax);
    assert_eq!(Tanh.kind(), ActivationKind::Tanh);
    assert_eq!(ActivationKind::Softmax.kind(), ActivationKind::Softmax);
    assert_eq!(ActivationKind::Softmax.get_name(), "Softmax");
}

#[test]
fn softmax_takes_a_single_row() {
    assert_eq!(ActivationKind::Softmax.function_shape((1, 4)), Some((1, 4)));
    assert_eq!(ActivationKind::Softmax.function_shape((3, 4)), None);
    assert_eq!(ActivationKind::Softmax.function_shape((0, 4)), None);
    assert_eq!(ActivationKind::Tanh.function_shape((3, 4)), Some((3, 4)));
    assert_eq!(ActivationKind::Relu.function_shape((2, 3)), Some((2, 3)));
    assert_eq!(ActivationKind::Sigmoid.function_shape((0, 0)), Some((0, 0)));
}
