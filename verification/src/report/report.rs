//! The metrics of a training run, epoch by epoch, and the report made of them.

use crate::report::html::{
    full_html, generate_full_html, generate_images_html, generate_resume_html, image_blocks,
    resume_html, shape_view, text_view, Summary,
};
use crate::text::{decimal, format_decimal};
use vstd::prelude::*;

verus! {

/// One curve of the report.
#[derive(Debug, Clone, Copy, PartialEq, Eq, Structural)]
pub enum Series {
    TrainAccuracy,
    TrainLoss,
    TestAccuracy,
}

impl Series {
    /// The title of the curve's plot.
    pub open spec fn spec_title(&self) -> Seq<char> {
        match self {
            Series::TrainAccuracy => "train accuracy"@,
            Series::TrainLoss => "train loss"@,
            Series::TestAccuracy => "test accuracy"@,
        }
    }

    /// Where the page finds the curve's plot.
    pub open spec fn spec_image(&self) -> Seq<char> {
        match self {
            Series::TrainAccuracy => "static/train accuracy.png"@,
            Series::TrainLoss => "static/train loss.png"@,
            Series::TestAccuracy => "static/test accuracy.png"@,
        }
    }

    /// The title of the curve's plot.
    pub fn title(&self) -> (r: &'static str)
        ensures
            r@ == self.spec_title(),
    {
        match self {
            Series::TrainAccuracy => "train accuracy",
            Series::TrainLoss => "train loss",
            Series::TestAccuracy => "test accuracy",
        }
    }

    /// Where the page finds the curve's plot.
    pub fn image(&self) -> (r: &'static str)
        ensures
            r@ == self.spec_image(),
    {
        match self {
            Series::TrainAccuracy => "static/train accuracy.png",
            Series::TrainLoss => "static/train loss.png",
            Series::TestAccuracy => "static/test accuracy.png",
        }
    }
}

/// The page finds the plot of a curve in the directory `static`, under the
/// name of the file that the plot of its title is written to.
pub proof fn lemma_image_is_plot_file(series: Series)
    ensures
        series.spec_image() == "static/"@ + series.spec_title() + ".png"@,
{
    reveal_strlit("static/");
    reveal_strlit(".png");
    reveal_strlit("train accuracy");
    reveal_strlit("train loss");
    reveal_strlit("test accuracy");
    reveal_strlit("static/train accuracy.png");
    reveal_strlit("static/train loss.png");
    reveal_strlit("static/test accuracy.png");
    assert(series.spec_image() =~= "static/"@ + series.spec_title() + ".png"@);
}

/// The curves of a report: the two of the training set, and that of the test
/// set where test accuracies were recorded.
pub open spec fn series_of(with_test: bool) -> Seq<Series> {
    if with_test {
        seq![Series::TrainAccuracy, Series::TrainLoss, Series::TestAccuracy]
    } else {
        seq![Series::TrainAccuracy, Series::TrainLoss]
    }
}

/// The images of a report, in the order of its curves.
pub open spec fn images_of(with_test: bool) -> Seq<&'static str> {
    if with_test {
        seq!["static/train accuracy.png", "static/train loss.png", "static/test accuracy.png"]
    } else {
        seq!["static/train accuracy.png", "static/train loss.png"]
    }
}

/// The metrics recorded so far. `T` is the type of a measured value.
pub struct Report<T> {
    steps: Vec<usize>,
    train_accuracies: Vec<T>,
    train_losses: Vec<T>,
    test_accuracies: Vec<T>,
    output_directory: String,
}

impl<T> Report<T> {
    /// The epochs recorded, oldest first.
    pub closed spec fn spec_steps(&self) -> Seq<usize> {
        self.steps@
    }

    /// The training accuracy of each recorded epoch.
    pub closed spec fn spec_train_accuracies(&self) -> Seq<T> {
        self.train_accuracies@
    }

    /// The training loss of each recorded epoch.
    pub closed spec fn spec_train_losses(&self) -> Seq<T> {
        self.train_losses@
    }

    /// The test accuracies recorded.
    pub closed spec fn spec_test_accuracies(&self) -> Seq<T> {
        self.test_accuracies@
    }

    /// Where the report is to be written.
    pub closed spec fn spec_output_directory(&self) -> Seq<char> {
        self.output_directory@
    }

    /// Each recorded epoch has one training accuracy and one training loss.
    #[verifier::type_invariant]
    pub open spec fn wf(&self) -> bool {
        &&& self.spec_train_accuracies().len() == self.spec_steps().len()
        &&& self.spec_train_losses().len() == self.spec_steps().len()
    }

    /// A report with nothing recorded.
    pub fn build(output_directory: &str) -> (r: Report<T>)
        ensures
            r.spec_steps() == Seq::<usize>::empty(),
            r.spec_train_accuracies() == Seq::<T>::empty(),
            r.spec_train_losses() == Seq::<T>::empty(),
            r.spec_test_accuracies() == Seq::<T>::empty(),
            r.spec_output_directory() == output_directory@,
    {
        Report {
            steps: Vec::new(),
            train_accuracies: Vec::new(),
            train_losses: Vec::new(),
            test_accuracies: Vec::new(),
            output_directory: output_directory.to_owned(),
        }
    }

    /// Records the metrics of one epoch; the test accuracy only where there is one.
    pub fn add_data(&mut self, step: usize, train_accuracy: T, train_loss: T, test_accuracy: Option<T>)
        ensures
            final(self).spec_steps() == old(self).spec_steps().push(step),
            final(self).spec_train_accuracies() == old(self).spec_train_accuracies().push(
                train_accuracy,
            ),
            final(self).spec_train_losses() == old(self).spec_train_losses().push(train_loss),
            final(self).spec_test_accuracies() == match test_accuracy {
                Some(t) => old(self).spec_test_accuracies().push(t),
                None => old(self).spec_test_accuracies(),
            },
            final(self).spec_output_directory() == old(self).spec_output_directory(),
    {
        proof {
            use_type_invariant(&*self);
        }
        let mut taken = Report {
            steps: Vec::new(),
            train_accuracies: Vec::new(),
            train_losses: Vec::new(),
            test_accuracies: Vec::new(),
            output_directory: String::new(),
        };
        core::mem::swap(self, &mut taken);
        let Report {
            mut steps,
            mut train_accuracies,
            mut train_losses,
            mut test_accuracies,
            output_directory,
        } = taken;
        steps.push(step);
        train_accuracies.push(train_accuracy);
        train_losses.push(train_loss);
        match test_accuracy {
            Some(t) => {
                test_accuracies.push(t);
            },
            None => {},
        }
        *self = Report { steps, train_accuracies, train_losses, test_accuracies, output_directory };
    }

    /// The curves that the report draws.
    pub fn series(&self) -> (r: Vec<Series>)
        ensures
            r@ == series_of(self.spec_test_accuracies().len() > 0),
    {
        let mut r: Vec<Series> = Vec::new();
        r.push(Series::TrainAccuracy);
        r.push(Series::TrainLoss);
        if self.test_accuracies.len() > 0 {
            r.push(Series::TestAccuracy);
        }
        proof {
            assert(r@ =~= series_of(self.spec_test_accuracies().len() > 0));
        }
        r
    }

    /// The name of the directory of the newest snapshot: the number of the
    /// last recorded epoch, counted from zero.
    pub fn snapshot_directory(&self) -> (r: String)
        requires
            self.spec_steps().len() > 0,
        ensures
            r@ == decimal((self.spec_steps().len() - 1) as nat),
    {
        proof {
            use_type_invariant(self);
        }
        format_decimal((self.train_accuracies.len() - 1) as u64)
    }

    /// The page of the newest snapshot. The measured values of the last
    /// recorded epoch come as the text that the page is to show, the test
    /// accuracy exactly where test accuracies were recorded.
    pub fn generate(
        &self,
        network_name: &str,
        duration: u64,
        epochs: usize,
        x_train_shape: &[usize],
        y_train_shape: &[usize],
        x_test_shape: Option<&[usize]>,
        y_test_shape: Option<&[usize]>,
        accuracy_function: &str,
        loss_function: &str,
        train_accuracy: &str,
        train_loss: &str,
        test_accuracy: Option<&str>,
    ) -> (page: String)
        requires
            self.spec_steps().len() > 0,
            test_accuracy.is_some() == (self.spec_test_accuracies().len() > 0),
        ensures
            page@ == full_html(
                resume_html(
                    (Summary {
                        network_name: network_name@,
                        duration: duration as nat,
                        step: (self.spec_steps().len() - 1) as nat,
                        epochs: epochs as nat,
                        x_train_shape: x_train_shape@,
                        y_train_shape: y_train_shape@,
                        x_test_shape: shape_view(x_test_shape),
                        y_test_shape: shape_view(y_test_shape),
                        accuracy_function: accuracy_function@,
                        loss_function: loss_function@,
                        train_accuracy: train_accuracy@,
                        train_loss: train_loss@,
                        test_accuracy: text_view(test_accuracy),
                    }),
                ),
                image_blocks(
                    images_of(self.spec_test_accuracies().len() > 0),
                    images_of(self.spec_test_accuracies().len() > 0).len(),
                ),
            ),
    {
        let mut images: Vec<&str> = Vec::new();
        images.push("static/train accuracy.png");
        images.push("static/train loss.png");
        if self.test_accuracies.len() > 0 {
            images.push("static/test accuracy.png");
        }
        proof {
            assert(images@ =~= images_of(self.spec_test_accuracies().len() > 0));
        }
        let image_html = generate_images_html(images);
        let resume = generate_resume_html(
            network_name,
            duration,
            self.steps.len() - 1,
            epochs,
            x_train_shape,
            y_train_shape,
            x_test_shape,
            y_test_shape,
            accuracy_function,
            loss_function,
            train_accuracy,
            train_loss,
            test_accuracy,
        );
        generate_full_html(resume, image_html)
    }

    /// The epochs recorded, oldest first.
    pub fn steps(&self) -> (r: &Vec<usize>)
        ensures
            r@ == self.spec_steps(),
    {
        &self.steps
    }

    /// The training accuracy of each recorded epoch.
    pub fn train_accuracies(&self) -> (r: &Vec<T>)
        ensures
            r@ == self.spec_train_accuracies(),
            r@.len() == self.spec_steps().len(),
    {
        proof {
            use_type_invariant(self);
        }
        &self.train_accuracies
    }

    /// The training loss of each recorded epoch.
    pub fn train_losses(&self) -> (r: &Vec<T>)
        ensures
            r@ == self.spec_train_losses(),
            r@.len() == self.spec_steps().len(),
    {
        proof {
            use_type_invariant(self);
        }
        &self.train_losses
    }

    /// The test accuracies recorded.
    pub fn test_accuracies(&self) -> (r: &Vec<T>)
        ensures
            r@ == self.spec_test_accuracies(),
    {
        &self.test_accuracies
    }

    /// Where the report is to be written.
    pub fn output_directory(&self) -> (r: &str)
        ensures
            r@ == self.spec_output_directory(),
    {
        self.output_directory.as_str()
    }
}

impl<T: Copy> Report<T> {
    /// The training accuracy, the training loss and, where test accuracies
    /// were recorded, the test accuracy that were recorded last.
    pub fn last_metrics(&self) -> (r: (T, T, Option<T>))
        requires
            self.spec_steps().len() > 0,
        ensures
            r.0 == self.spec_train_accuracies().last(),
            r.1 == self.spec_train_losses().last(),
            r.2 == if self.spec_test_accuracies().len() > 0 {
                Some(self.spec_test_accuracies().last())
            } else {
                None
            },
    {
        proof {
            use_type_invariant(self);
        }
        let n = self.train_accuracies.len();
        let test = if self.test_accuracies.len() > 0 {
            Some(self.test_accuracies[self.test_accuracies.len() - 1])
        } else {
            None
        };
        (self.train_accuracies[n - 1], self.train_losses[n - 1], test)
    }
}

} // verus!
