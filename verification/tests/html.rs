use neuralnet::report::html::{generate_full_html, generate_images_html, generate_resume_html};
use neuralnet::text::{format_decimal, format_list};

#[test]
fn generate_images_html_should_format_list_of_image() {
    let images_html: String = generate_images_html(vec!["image1.png", "image2.png"]);
    assert_eq!(
        images_html,
        "<div class=\"imgBlock\">
  <figure>
    <img src=\"image1.png\" width=\"700\" height=\"400\" />
  </figure>
</div>
<div class=\"imgBlock\">
  <figure>
    <img src=\"image2.png\" width=\"700\" height=\"400\" />
  </figure>
</div>
"
    )
}

#[test]
fn generate_resume_html_should_create_resume_with_test() {
    let resume_html: String = generate_resume_html(
        "MLP",
        56,
        5,
        100,
        &[10, 1],
        &[5, 1],
        Some(&[6, 1]),
        Some(&[4, 1]),
        "Categorical Accuracy",
        "MSE",
        &format!("{:?}", 0.66),
        &format!("{:?}", 0.33),
        Some(&format!("{:?}", 0.8)),
    );
    assert_eq!(
        resume_html,
        "<div class=\"tableBlock\">
	<table>
		<tr><td>Type</td><td>MLP</td></tr>
		<tr><td>Duration (s)</td><td>56</td></tr>
		<tr><td>Epochs</td><td>5/100</td></tr>
		<tr><td>X Train</td><td>[10, 1]</td></tr>
		<tr><td>Y Train</td><td>[5, 1]</td></tr>
		<tr><td>X Test</td><td>[6, 1]</td></tr>
		<tr><td>Y Test</td><td>[4, 1]</td></tr>
		<tr><td>Accuracy Function</td><td>Categorical Accuracy</td></tr>
		<tr><td>Loss Function</td><td>MSE</td></tr>
		<tr><td>Train Accuracy</td><td>0.66</td></tr>
		<tr><td>Train Loss</td><td>0.33</td></tr>
		<tr><td>Test Accuracy</td><td>0.8</td></tr>
	</table>
</div>
"
    )
}

#[test]
fn generate_resume_html_should_create_resume_without_test() {
    let resume_html: String = generate_resume_html(
        "MLP",
        56,
        5,
        100,
        &[10, 1],
        &[5, 1],
        None,
        None,
        "Categorical Accuracy",
        "MSE",
        &format!("{:?}", 0.66),
        &format!("{:?}", 0.33),
        None,
    );
    assert_eq!(
        resume_html,
        "<div class=\"tableBlock\">
	<table>
		<tr><td>Type</td><td>MLP</td></tr>
		<tr><td>Duration (s)</td><td>56</td></tr>
		<tr><td>Epochs</td><td>5/100</td></tr>
		<tr><td>X Train</td><td>[10, 1]</td></tr>
		<tr><td>Y Train</td><td>[5, 1]</td></tr>
		<tr><td>Accuracy Function</td><td>Categorical Accuracy</td></tr>
		<tr><td>Loss Function</td><td>MSE</td></tr>
		<tr><td>Train Accuracy</td><td>0.66</td></tr>
		<tr><td>Train Loss</td><td>0.33</td></tr>
	</table>
</div>
"
    )
}

#[test]
fn generate_full_html_should_create_full_report() {
    let resume_html: String = generate_resume_html(
        "MLP",
        56,
        5,
        100,
        &[10, 1],
        &[5, 1],
        Some(&[6, 1]),
        Some(&[4, 1]),
        "Categorical Accuracy",
        "MSE",
        &format!("{:?}", 0.66),
        &format!("{:?}", 0.33),
        Some(&format!("{:?}", 0.8)),
    );
    let images_html: String = generate_images_html(vec!["image1.png", "image2.png"]);
    let report_html: String = generate_full_html(resume_html, images_html);
    assert_eq!(
        report_html,
        "<!DOCTYPE html>
<html>
<head>
<title>Report</title>
<style>
table, th, td {
  border: 1px solid;
}
</style>
</head>
<body>
<h1>Report</h1>
<div class=\"tableBlock\">
	<table>
		<tr><td>Type</td><td>MLP</td></tr>
		<tr><td>Duration (s)</td><td>56</td></tr>
		<tr><td>Epochs</td><td>5/100</td></tr>
		<tr><td>X Train</td><td>[10, 1]</td></tr>
		<tr><td>Y Train</td><td>[5, 1]</td></tr>
		<tr><td>X Test</td><td>[6, 1]</td></tr>
		<tr><td>Y Test</td><td>[4, 1]</td></tr>
		<tr><td>Accuracy Function</td><td>Categorical Accuracy</td></tr>
		<tr><td>Loss Function</td><td>MSE</td></tr>
		<tr><td>Train Accuracy</td><td>0.66</td></tr>
		<tr><td>Train Loss</td><td>0.33</td></tr>
		<tr><td>Test Accuracy</td><td>0.8</td></tr>
	</table>
</div>

<div class=\"imgBlock\">
  <figure>
    <img src=\"image1.png\" width=\"700\" height=\"400\" />
  </figure>
</div>
<div class=\"imgBlock\">
  <figure>
    <img src=\"image2.png\" width=\"700\" height=\"400\" />
  </figure>
</div>

</body>
</html>"
    );
}

#[test]
fn generate_images_html_of_no_image_is_empty() {
    assert_eq!(generate_images_html(vec![]), "");
}

#[test]
fn format_decimal_writes_base_ten() {
    assert_eq!(format_decimal(0), "0");
    assert_eq!(format_decimal(7), "7");
    assert_eq!(format_decimal(10), "10");
    assert_eq!(format_decimal(1234567890), "1234567890");
    assert_eq!(format_decimal(u64::MAX), u64::MAX.to_string());
}

#[test]
fn format_list_writes_as_debug_does() {
    assert_eq!(format_list(&[]), "[]");
    assert_eq!(format_list(&[3]), "[3]");
    assert_eq!(format_list(&[10, 1]), "[10, 1]");
    let long: [usize; 4] = [0, 25, 300, 4000];
    assert_eq!(format_list(&long), format!("{:?}", long));
}
