//! The report's page, assembled as text.

use crate::text::{decimal, format_decimal, format_list, list_text};
use vstd::prelude::*;

verus! {

/// The block that shows one image.
pub open spec fn image_block(image: Seq<char>) -> Seq<char> {
    "<div class=\"imgBlock\">\n  <figure>\n    <img src=\""@ + image
        + "\" width=\"700\" height=\"400\" />\n  </figure>\n</div>\n"@
}

/// The blocks of the first `count` images, in order.
pub open spec fn image_blocks(images: Seq<&str>, count: nat) -> Seq<char>
    decreases count,
{
    if count == 0 || count > images.len() {
        Seq::empty()
    } else {
        image_blocks(images, (count - 1) as nat) + image_block(images[count - 1]@)
    }
}

/// One line of the summary table.
pub open spec fn table_row(label: Seq<char>, value: Seq<char>) -> Seq<char> {
    "\n\t\t<tr><td>"@ + label + "</td><td>"@ + value + "</td></tr>"@
}

/// A line of the summary table that is there only when its value is.
pub open spec fn optional_row(label: Seq<char>, value: Option<Seq<char>>) -> Seq<char> {
    match value {
        Some(v) => table_row(label, v),
        None => Seq::empty(),
    }
}

/// What the summary table shows of a training run.
pub struct Summary {
    pub network_name: Seq<char>,
    pub duration: nat,
    pub step: nat,
    pub epochs: nat,
    pub x_train_shape: Seq<usize>,
    pub y_train_shape: Seq<usize>,
    pub x_test_shape: Option<Seq<usize>>,
    pub y_test_shape: Option<Seq<usize>>,
    pub accuracy_function: Seq<char>,
    pub loss_function: Seq<char>,
    pub train_accuracy: Seq<char>,
    pub train_loss: Seq<char>,
    pub test_accuracy: Option<Seq<char>>,
}

/// The text of an optional list of lengths.
pub open spec fn optional_list(shape: Option<Seq<usize>>) -> Option<Seq<char>> {
    match shape {
        Some(s) => Some(list_text(s)),
        None => None,
    }
}

/// The summary table: one line per entry, the test entries only where given.
pub open spec fn resume_html(s: Summary) -> Seq<char> {
    "<div class=\"tableBlock\">\n\t<table>"@ + table_row("Type"@, s.network_name) + table_row(
        "Duration (s)"@,
        decimal(s.duration),
    ) + table_row("Epochs"@, decimal(s.step) + "/"@ + decimal(s.epochs)) + table_row(
        "X Train"@,
        list_text(s.x_train_shape),
    ) + table_row("Y Train"@, list_text(s.y_train_shape)) + optional_row(
        "X Test"@,
        optional_list(s.x_test_shape),
    ) + optional_row("Y Test"@, optional_list(s.y_test_shape)) + table_row(
        "Accuracy Function"@,
        s.accuracy_function,
    ) + table_row("Loss Function"@, s.loss_function) + table_row(
        "Train Accuracy"@,
        s.train_accuracy,
    ) + table_row("Train Loss"@, s.train_loss) + optional_row("Test Accuracy"@, s.test_accuracy)
        + "\n\t</table>\n</div>\n"@
}

/// The whole page around a summary and its images.
pub open spec fn full_html(resume: Seq<char>, images: Seq<char>) -> Seq<char> {
    "<!DOCTYPE html>\n<html>\n<head>\n<title>Report</title>\n<style>\ntable, th, td {\n  border: 1px solid;\n}\n</style>\n</head>\n<body>\n<h1>Report</h1>\n"@
        + resume + "\n"@ + images + "\n</body>\n</html>"@
}

/// The view of an optional list of lengths.
pub open spec fn shape_view(shape: Option<&[usize]>) -> Option<Seq<usize>> {
    match shape {
        Some(s) => Some(s@),
        None => None,
    }
}

/// The view of an optional text.
pub open spec fn text_view(text: Option<&str>) -> Option<Seq<char>> {
    match text {
        Some(t) => Some(t@),
        None => None,
    }
}

/// One block per image, in the order given.
pub fn generate_images_html(images: Vec<&str>) -> (html: String)
    ensures
        html@ == image_blocks(images@, images@.len()),
{
    let mut html = String::new();
    let mut i: usize = 0;
    while i < images.len()
        invariant
            i <= images.len(),
            html@ == image_blocks(images@, i as nat),
        decreases images.len() - i,
    {
        html.append("<div class=\"imgBlock\">\n  <figure>\n    <img src=\"");
        html.append(images[i]);
        html.append("\" width=\"700\" height=\"400\" />\n  </figure>\n</div>\n");
        proof {
            assert(html@ =~= image_blocks(images@, i as nat) + image_block(images@[i as int]@));
        }
        i = i + 1;
    }
    html
}

fn push_row(html: &mut String, label: &str, value: &str)
    ensures
        final(html)@ == old(html)@ + table_row(label@, value@),
{
    html.append("\n\t\t<tr><td>");
    html.append(label);
    html.append("</td><td>");
    html.append(value);
    html.append("</td></tr>");
    proof {
        assert(html@ =~= old(html)@ + table_row(label@, value@));
    }
}

fn push_shape_row(html: &mut String, label: &str, shape: Option<&[usize]>)
    ensures
        final(html)@ == old(html)@ + optional_row(label@, optional_list(shape_view(shape))),
{
    match shape {
        Some(s) => {
            let text = format_list(s);
            push_row(html, label, text.as_str());
        },
        None => {
            proof {
                assert(html@ =~= old(html)@ + Seq::<char>::empty());
            }
        },
    }
}

/// The summary table of a training run. The three measured values come as
/// the text that the table is to show.
pub fn generate_resume_html(
    network_name: &str,
    duration: u64,
    step: usize,
    epochs: usize,
    x_train_shape: &[usize],
    y_train_shape: &[usize],
    x_test_shape: Option<&[usize]>,
    y_test_shape: Option<&[usize]>,
    accuracy_function: &str,
    loss_function: &str,
    train_accuracy: &str,
    train_loss: &str,
    test_accuracy: Option<&str>,
) -> (html: String)
    ensures
        html@ == resume_html(
            (Summary {
                network_name: network_name@,
                duration: duration as nat,
                step: step as nat,
                epochs: epochs as nat,
                x_train_shape: x_train_shape@,
                y_train_shape: y_train_shape@,
                x_test_shape: shape_view(x_test_shape),
                y_test_shape: shape_view(y_test_shape),
                accuracy_function: accuracy_function@,
                loss_function: loss_function@,
                train_accuracy: train_accuracy@,
                train_loss: train_loss@,
                test_accuracy: text_view(test_accuracy),
            }),
        ),
{
    let mut html = String::from_str("<div class=\"tableBlock\">\n\t<table>");
    push_row(&mut html, "Type", network_name);
    let duration_text = format_decimal(duration);
    push_row(&mut html, "Duration (s)", duration_text.as_str());
    let mut progress = format_decimal(step as u64);
    progress.append("/");
    let epochs_text = format_decimal(epochs as u64);
    progress.append(epochs_text.as_str());
    push_row(&mut html, "Epochs", progress.as_str());
    push_shape_row(&mut html, "X Train", Some(x_train_shape));
    push_shape_row(&mut html, "Y Train", Some(y_train_shape));
    push_shape_row(&mut html, "X Test", x_test_shape);
    push_shape_row(&mut html, "Y Test", y_test_shape);
    push_row(&mut html, "Accuracy Function", accuracy_function);
    push_row(&mut html, "Loss Function", loss_function);
    push_row(&mut html, "Train Accuracy", train_accuracy);
    push_row(&mut html, "Train Loss", train_loss);
    match test_accuracy {
        Some(value) => {
            push_row(&mut html, "Test Accuracy", value);
        },
        None => {
            proof {
                assert(html@ =~= html@ + Seq::<char>::empty());
            }
        },
    }
    html.append("\n\t</table>\n</div>\n");
    html
}

/// The whole page around a summary and its images.
pub fn generate_full_html(resume_html: String, image_html: String) -> (html: String)
    ensures
        html@ == full_html(resume_html@, image_html@),
{
    let mut html = String::from_str(
        "<!DOCTYPE html>\n<html>\n<head>\n<title>Report</title>\n<style>\ntable, th, td {\n  border: 1px solid;\n}\n</style>\n</head>\n<body>\n<h1>Report</h1>\n",
    );
    html.append(resume_html.as_str());
    html.append("\n");
    html.append(image_html.as_str());
    html.append("\n</body>\n</html>");
    html
}

} // verus!
