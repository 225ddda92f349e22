//! Early stopping of model training: the epoch bookkeeping that decides
//! when training ends and which epoch's model is kept.
use vstd::prelude::*;

verus! {

/// Tracks the epochs of a training run. An epoch that improves the
/// validation loss becomes the best epoch and clears the patience count;
/// any other epoch adds to it, and training stops once the count reaches the
/// patience limit.
pub struct EarlyStopping {
    patience_limit: usize,
    epochs_run: usize,
    best_epoch: usize,
    patience: usize,
}

impl EarlyStopping {
    /// The number of epochs without improvement after which training stops.
    pub closed spec fn limit(&self) -> nat {
        self.patience_limit as nat
    }

    /// The number of epochs recorded.
    pub closed spec fn epochs(&self) -> nat {
        self.epochs_run as nat
    }

    /// The 1-based number of the best epoch; 0 while no epoch improved on the
    /// initial model.
    pub closed spec fn best(&self) -> nat {
        self.best_epoch as nat
    }

    /// The number of epochs since the best one.
    pub closed spec fn stalled(&self) -> nat {
        self.patience as nat
    }

    /// The epochs since the best one are exactly those after it.
    pub closed spec fn wf(&self) -> bool {
        self.best_epoch + self.patience == self.epochs_run
    }

    /// A run in which no epoch has been recorded.
    pub fn new(patience_limit: usize) -> (stopping: Self)
        ensures
            stopping.wf(),
            stopping.limit() == patience_limit,
            stopping.epochs() == 0,
            stopping.best() == 0,
            stopping.stalled() == 0,
    {
        EarlyStopping { patience_limit, epochs_run: 0, best_epoch: 0, patience: 0 }
    }

    /// Records an epoch that did (or did not) improve the validation loss and
    /// says whether training stops after it.
    pub fn record_epoch(&mut self, improved: bool) -> (stop: bool)
        requires
            old(self).wf(),
            old(self).epochs() < usize::MAX,
        ensures
            final(self).wf(),
            final(self).limit() == old(self).limit(),
            final(self).epochs() == old(self).epochs() + 1,
            improved ==> final(self).best() == final(self).epochs() && final(self).stalled() == 0,
            !improved ==> final(self).best() == old(self).best() && final(self).stalled()
                == old(self).stalled() + 1,
            stop == (!improved && final(self).stalled() >= final(self).limit()),
    {
        self.epochs_run = self.epochs_run + 1;
        if improved {
            self.best_epoch = self.epochs_run;
            self.patience = 0;
            false
        } else {
            self.patience = self.patience + 1;
            self.patience >= self.patience_limit
        }
    }

    /// The number of epochs recorded.
    pub fn epochs_run(&self) -> (epochs: usize)
        ensures
            epochs == self.epochs(),
    {
        self.epochs_run
    }

    /// The 1-based number of the best epoch, 0 if none improved.
    pub fn best_epoch(&self) -> (epoch: usize)
        ensures
            epoch == self.best(),
    {
        self.best_epoch
    }

    /// The best epoch never lies after the last recorded one.
    pub proof fn lemma_best_is_recorded(&self)
        requires
            self.wf(),
        ensures
            self.best() <= self.epochs(),
            self.stalled() == self.epochs() - self.best(),
    {
    }
}

} // verus!
