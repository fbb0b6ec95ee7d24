use neuralnet::report::report::{Report, Series};

#[test]
fn add_data_should_push_in_vectors() {
    let mut report_with_test: Report<f64> = Report::build("test_report");
    let mut report_without_test: Report<f64> = Report::build("test_report");

    for i in 0..5 {
        report_with_test.add_data(i, i as f64 * 1.5, i as f64 * 2.0, Some(i as f64 * 5.0));
        report_without_test.add_data(i, i as f64 * 1.5, i as f64 * 2.0, None);
    }

    assert_eq!(*report_with_test.steps(), vec![0, 1, 2, 3, 4]);
    assert_eq!(
        *report_with_test.train_accuracies(),
        vec![0.0, 1.5, 3.0, 4.5, 6.0]
    );
    assert_eq!(*report_with_test.train_losses(), vec![0.0, 2.0, 4.0, 6.0, 8.0]);
    assert_eq!(
        *report_with_test.test_accuracies(),
        vec![0.0, 5.0, 10.0, 15.0, 20.0]
    );
    assert_eq!(*report_without_test.steps(), vec![0, 1, 2, 3, 4]);
    assert_eq!(
        *report_without_test.train_accuracies(),
        vec![0.0, 1.5, 3.0, 4.5, 6.0]
    );
    assert_eq!(
        *report_without_test.train_losses(),
        vec![0.0, 2.0, 4.0, 6.0, 8.0]
    );
    assert!(report_without_test.test_accuracies().is_empty());
}

#[test]
fn build_should_record_nothing() {
    let report: Report<f64> = Report::build("out/reports");
    assert_eq!(report.output_directory(), "out/reports");
    assert!(report.steps().is_empty());
    assert!(report.train_accuracies().is_empty());
    assert!(report.train_losses().is_empty());
    assert!(report.test_accuracies().is_empty());
}

#[test]
fn series_follow_the_recorded_test_accuracies() {
    let mut report: Report<f64> = Report::build("test_report");
    report.add_data(0, 0.5, 1.0, None);
    assert_eq!(report.series(), vec![Series::TrainAccuracy, Series::TrainLoss]);
    report.add_data(1, 0.5, 1.0, Some(0.25));
    assert_eq!(
        report.series(),
        vec![Series::TrainAccuracy, Series::TrainLoss, Series::TestAccuracy]
    );
    assert_eq!(Series::TrainAccuracy.title(), "train accuracy");
    assert_eq!(Series::TrainLoss.title(), "train loss");
    assert_eq!(Series::TestAccuracy.title(), "test accuracy");
    for series in report.series() {
        assert_eq!(series.image(), format!("static/{}.png", series.title()));
    }
}

#[test]
fn snapshot_directory_is_the_number_of_the_last_epoch() {
    let mut report: Report<f64> = Report::build("test_report");
    report.add_data(0, 0.0, 0.0, None);
    assert_eq!(report.snapshot_directory(), "0");
    for i in 1..=999 {
        report.add_data(i, 0.0, 0.0, None);
    }
    assert_eq!(report.snapshot_directory(), "999");
}

#[test]
fn last_metrics_are_those_recorded_last() {
    let mut report: Report<f64> = Report::build("test_report");
    report.add_data(0, 0.25, 4.0, Some(0.125));
    report.add_data(1, 0.5, 2.0, None);
    assert_eq!(report.last_metrics(), (0.5, 2.0, Some(0.125)));
    let mut report: Report<f64> = Report::build("test_report");
    report.add_data(0, 0.25, 4.0, None);
    assert_eq!(report.last_metrics(), (0.25, 4.0, None));
}

#[test]
fn generate_should_create_full_report() {
    let mut report: Report<f64> = Report::build("test_report");
    for i in 0..5 {
        report.add_data(i, i as f64 * 1.5, i as f64 * 2.0, Some(i as f64 * 5.0));
    }
    let (accuracy, loss, test) = report.last_metrics();
    let page = report.generate(
        "MLP",
        3,
        1000,
        &[5, 5],
        &[8, 8],
        Some(&[6, 8]),
        Some(&[8, 5]),
        "Categorical Accuracy",
        "MSE",
        &format!("{:?}", accuracy),
        &format!("{:?}", loss),
        test.map(|t| format!("{:?}", t)).as_deref(),
    );
    assert_eq!(
        page,
        "<!DOCTYPE html>
<html>
<head>
<title>Report</title>
<style>
table, th, td {
  border: 1px solid;
}
</style>
</head>
<body>
<h1>Report</h1>
<div class=\"tableBlock\">
	<table>
		<tr><td>Type</td><td>MLP</td></tr>
		<tr><td>Duration (s)</td><td>3</td></tr>
		<tr><td>Epochs</td><td>4/1000</td></tr>
		<tr><td>X Train</td><td>[5, 5]</td></tr>
		<tr><td>Y Train</td><td>[8, 8]</td></tr>
		<tr><td>X Test</td><td>[6, 8]</td></tr>
		<tr><td>Y Test</td><td>[8, 5]</td></tr>
		<tr><td>Accuracy Function</td><td>Categorical Accuracy</td></tr>
		<tr><td>Loss Function</td><td>MSE</td></tr>
		<tr><td>Train Accuracy</td><td>6.0</td></tr>
		<tr><td>Train Loss</td><td>8.0</td></tr>
		<tr><td>Test Accuracy</td><td>20.0</td></tr>
	</table>
</div>

<div class=\"imgBlock\">
  <figure>
    <img src=\"static/train accuracy.png\" width=\"700\" height=\"400\" />
  </figure>
</div>
<div class=\"imgBlock\">
  <figure>
    <img src=\"static/train loss.png\" width=\"700\" height=\"400\" />
  </figure>
</div>
<div class=\"imgBlock\">
  <figure>
    <img src=\"static/test accuracy.png\" width=\"700\" height=\"400\" />
  </figure>
</div>

</body>
</html>"
    );
}

#[test]
fn generate_without_test_accuracies_shows_two_images() {
    let mut report: Report<f64> = Report::build("test_report");
    report.add_data(0, 0.5, 0.25, None);
    let page = report.generate(
        "Mlp", 0, 1, &[4, 2], &[4, 2], None, None, "categorical_accuracy", "MSE", "0.5", "0.25",
        None,
    );
    assert_eq!(page.matches("<img src=").count(), 2);
    assert_eq!(page.matches("static/test accuracy.png").count(), 0);
    assert_eq!(page.matches("Test Accuracy").count(), 0);
    assert_eq!(page.matches("<td>Epochs</td><td>0/1</td>").count(), 1);
}
