//! What the update dialog shows, from the check through to the restart prompt.

use crate::consts::VERSION;
use crate::i18n::{filled, phrase, t, tf_one, with_argument, Lang};
use crate::text::same;
use crate::types::CheckKind;
use crate::update::{Asset, Release};
use vstd::prelude::*;

verus! {

/// What the update modal is currently showing. An install has to stay on
/// screen from the click through to the restart prompt - closing the dialog
/// the moment work starts leaves the user with no sign anything happened.
#[derive(Debug)]
pub enum UpdateUi {
    Idle,
    Offer(Release),
    Installing(Release),
    /// Swap succeeded; carries the version now on disk.
    Installed(String),
    /// Install failed; the message lives in the status line.
    Failed(Release),
}

/// The state of updates.
#[derive(Debug)]
pub struct Updater {
    pub ui: UpdateUi,
    /// A check is under way.
    pub checking: bool,
    /// Progress/result line for the Setup tab and the modal.
    pub status: String,
}

impl Updater {
    /// Nothing is shown and nothing is under way.
    pub fn new() -> (r: Updater)
        ensures
            r.ui is Idle,
            !r.checking,
            r.status@ == Seq::<char>::empty(),
    {
        Updater { ui: UpdateUi::Idle, checking: false, status: String::new() }
    }

    /// A check may begin: none is under way, nor an install.
    pub open spec fn may_check(&self) -> bool {
        !self.checking && !(self.ui is Installing)
    }

    /// Whether a check may begin.
    pub fn can_check(&self) -> (r: bool)
        ensures
            r == self.may_check(),
    {
        let installing = match self.ui {
            UpdateUi::Installing(_) => true,
            _ => false,
        };
        !self.checking && !installing
    }

    /// Begins a check where one may; only one that was asked for says so.
    pub fn start_check(&mut self, kind: CheckKind, lang: Lang) -> (r: bool)
        ensures
            r == old(self).may_check(),
            is_check_started(*final(self), *old(self), r, kind, lang),
    {
        if !self.can_check() {
            return false;
        }
        self.checking = true;
        if kind == CheckKind::Manual {
            self.status = t(lang, "update.checking").to_owned();
        }
        true
    }

    /// Takes in the result of a check; `skipped` is the version that the user
    /// chose to skip. Such a version stays silent on start, but a manual check
    /// always reports it. A failed automatic check stays quiet - being offline
    /// is not something to interrupt over.
    pub fn checked(
        &mut self,
        result: Result<Option<Release>, String>,
        kind: CheckKind,
        skipped: &str,
        lang: Lang,
    )
        ensures
            !final(self).checking,
            is_checked(*final(self), *old(self), result, kind, skipped@, lang),
    {
        self.checking = false;
        match result {
            Ok(Some(release)) => {
                let skip = same(skipped, release.version.as_str());
                if kind == CheckKind::Manual || !skip {
                    self.status = String::new();
                    self.ui = UpdateUi::Offer(release);
                    assert(self.status@ =~= Seq::empty());
                }
            },
            Ok(None) => {
                if kind == CheckKind::Manual {
                    self.status = tf_one(lang, "update.up_to_date", VERSION);
                }
            },
            Err(e) => {
                if kind == CheckKind::Manual {
                    self.status = tf_one(lang, "update.check_failed", e.as_str());
                }
            },
        }
    }

    /// Begins the install of the release on offer; gives what to download. A
    /// release without an asset for this platform is not installed.
    pub fn start_install(&mut self, lang: Lang) -> (r: Option<(Asset, String)>)
        ensures
            is_install_started(*final(self), *old(self), r, lang),
    {
        let offered = match &self.ui {
            UpdateUi::Offer(_) => true,
            _ => false,
        };
        if !offered {
            return None;
        }
        let mut ui = UpdateUi::Idle;
        std::mem::swap(&mut self.ui, &mut ui);
        match ui {
            UpdateUi::Offer(release) => {
                let what = match &release.asset {
                    Some(a) => Some(
                        (
                            Asset { url: a.url.clone(), size: a.size, sha256: a.sha256.clone() },
                            release.version.clone(),
                        ),
                    ),
                    None => None,
                };
                if what.is_some() {
                    self.status = t(lang, "update.downloading").to_owned();
                    self.ui = UpdateUi::Installing(release);
                }
                what
            },
            _ => None,
        }
    }

    /// Takes in the result of an install: the version now on disk, or why it
    /// failed.
    pub fn installed(&mut self, result: Result<String, String>, lang: Lang)
        ensures
            is_install_ended(*final(self), *old(self), result, lang),
    {
        match result {
            Ok(version) => {
                self.status = tf_one(lang, "update.installed", version.as_str());
                self.ui = UpdateUi::Installed(version);
            },
            Err(e) => {
                self.status = tf_one(lang, "update.failed", e.as_str());
                let mut ui = UpdateUi::Idle;
                std::mem::swap(&mut self.ui, &mut ui);
                self.ui = match ui {
                    UpdateUi::Installing(release) => UpdateUi::Failed(release),
                    other => other,
                };
            },
        }
    }

    /// Closes the dialog.
    pub fn close(&mut self)
        ensures
            *final(self) == (Updater { ui: UpdateUi::Idle, ..*old(self) }),
    {
        self.ui = UpdateUi::Idle;
    }
}

/// A check is under way from now on, where it may be.
pub open spec fn is_check_started(
    n: Updater,
    u: Updater,
    started: bool,
    kind: CheckKind,
    lang: Lang,
) -> bool {
    &&& n.ui == u.ui
    &&& n.checking == (u.checking || started)
    &&& n.status@ == (if started && kind == CheckKind::Manual {
        phrase(lang, "update.checking"@)
    } else {
        u.status@
    })
}

/// The offered release is being installed from now on, where it can be.
pub open spec fn is_install_started(
    n: Updater,
    u: Updater,
    r: Option<(Asset, String)>,
    lang: Lang,
) -> bool {
    &&& n.checking == u.checking
    &&& match u.ui {
        UpdateUi::Offer(rel) => match rel.asset {
            Some(a) => {
                &&& is_asset(r, a)
                &&& is_version(r, rel.version@)
                &&& n.ui == UpdateUi::Installing(rel)
                &&& n.status@ == phrase(lang, "update.downloading"@)
            },
            None => {
                &&& r is None
                &&& n.ui is Idle
                &&& n.status@ == u.status@
            },
        },
        _ => r is None && n == u,
    }
}

/// An install came to its end.
pub open spec fn is_install_ended(
    n: Updater,
    u: Updater,
    result: Result<String, String>,
    lang: Lang,
) -> bool {
    &&& n.checking == u.checking
    &&& match result {
        Ok(version) => {
            &&& n.ui is Installed
            &&& n.ui->Installed_0@ == version@
            &&& n.status@ == with_argument(lang, "update.installed"@, version@)
        },
        Err(e) => {
            &&& n.ui == (match u.ui {
                UpdateUi::Installing(rel) => UpdateUi::Failed(rel),
                other => other,
            })
            &&& n.status@ == with_argument(lang, "update.failed"@, e@)
        },
    }
}

/// `r` is an asset to download.
pub open spec fn is_asset(r: Option<(Asset, String)>, a: Asset) -> bool {
    match r {
        Some((x, _)) => x.url@ == a.url@ && x.size == a.size && x.sha256@ == a.sha256@,
        None => false,
    }
}

/// `r` is for a version.
pub open spec fn is_version(r: Option<(Asset, String)>, version: Seq<char>) -> bool {
    match r {
        Some((_, v)) => v@ == version,
        None => false,
    }
}

/// `n` is the state `u` after a check.
pub open spec fn is_checked(
    n: Updater,
    u: Updater,
    result: Result<Option<Release>, String>,
    kind: CheckKind,
    skipped: Seq<char>,
    lang: Lang,
) -> bool {
    match result {
        Ok(Some(release)) => if kind == CheckKind::Manual || release.version@ != skipped {
            n.ui == UpdateUi::Offer(release) && n.status@ == Seq::<char>::empty()
        } else {
            n.ui == u.ui && n.status@ == u.status@
        },
        Ok(None) => n.ui == u.ui && n.status@ == (if kind == CheckKind::Manual {
            with_argument(lang, "update.up_to_date"@, VERSION@)
        } else {
            u.status@
        }),
        Err(e) => n.ui == u.ui && n.status@ == (if kind == CheckKind::Manual {
            with_argument(lang, "update.check_failed"@, e@)
        } else {
            u.status@
        }),
    }
}

// ---------------- laws ----------------

/// A manual check always says something of its result; an automatic one speaks
/// up only for a version that was not skipped.
pub proof fn only_news_interrupt(
    n: Updater,
    u: Updater,
    result: Result<Option<Release>, String>,
    skipped: Seq<char>,
    lang: Lang,
)
    requires
        is_checked(n, u, result, CheckKind::Automatic, skipped, lang),
    ensures
        n.ui != u.ui ==> result is Ok && result->Ok_0 is Some && n.ui == UpdateUi::Offer(
            result->Ok_0->0,
        ) && result->Ok_0->0.version@ != skipped,
        !(result is Ok && result->Ok_0 is Some) ==> n.status@ == u.status@,
{
}

/// A check on demand always has its answer: the release that was found, skipped
/// before or not, that there is none, or why it failed. One that runs by itself
/// offers a release only.
pub proof fn a_check_on_demand_is_answered(
    n: Updater,
    u: Updater,
    release: Release,
    error: String,
    skipped: Seq<char>,
    lang: Lang,
)
    ensures
        is_checked(n, u, Ok(Some(release)), CheckKind::Manual, skipped, lang) ==> n.ui
            == UpdateUi::Offer(release) && n.status@.len() == 0,
        is_checked(n, u, Ok(None), CheckKind::Manual, skipped, lang) ==> n.ui == u.ui && n.status@
            == filled(phrase(lang, "update.up_to_date"@), seq!["0.2.0"@]),
        is_checked(n, u, Err(error), CheckKind::Manual, skipped, lang) ==> n.ui == u.ui && n.status@
            == filled(phrase(lang, "update.check_failed"@), seq![error@]),
        release.version@ != skipped && is_checked(
            n,
            u,
            Ok(Some(release)),
            CheckKind::Automatic,
            skipped,
            lang,
        ) ==> n.ui == UpdateUi::Offer(release),
        is_checked(n, u, Ok(None), CheckKind::Automatic, skipped, lang) ==> n.ui == u.ui
            && n.status@ == u.status@,
        is_checked(n, u, Err(error), CheckKind::Automatic, skipped, lang) ==> n.ui == u.ui
            && n.status@ == u.status@,
{
}

/// A check starts unless another is under way or an update is being installed.
pub proof fn one_check_at_a_time(u: Updater)
    ensures
        u.checking ==> !u.may_check(),
        u.ui is Installing ==> !u.may_check(),
        !u.checking && !(u.ui is Installing) ==> u.may_check(),
{
}

/// A check that was asked for says that it is under way; one that runs by itself
/// says nothing.
pub proof fn a_check_says_that_it_runs(n: Updater, u: Updater, lang: Lang)
    ensures
        is_check_started(n, u, true, CheckKind::Manual, lang) ==> n.checking && n.ui == u.ui
            && n.status@ == phrase(lang, "update.checking"@),
        is_check_started(n, u, true, CheckKind::Automatic, lang) ==> n.checking && n.ui == u.ui
            && n.status@ == u.status@,
        is_check_started(n, u, false, CheckKind::Manual, lang) ==> n.checking == u.checking && n.ui
            == u.ui && n.status@ == u.status@,
{
}

/// The release that is offered is the one that is installed: its file, with the
/// size and the checksum it was published with. Nothing else is.
pub proof fn the_offered_release_is_installed(
    n: Updater,
    u: Updater,
    r: Option<(Asset, String)>,
    lang: Lang,
)
    requires
        is_install_started(n, u, r, lang),
    ensures
        u.ui matches UpdateUi::Offer(rel) ==> (rel.asset matches Some(a) ==> n.ui
            == UpdateUi::Installing(rel) && (r matches Some((x, v)) && x.url@ == a.url@ && x.size
            == a.size && x.sha256@ == a.sha256@ && v@ == rel.version@) && n.status@ == phrase(
            lang,
            "update.downloading"@,
        )),
        !(u.ui is Offer) ==> r is None && n == u,
{
}

/// An install ends in its result: the version that is there now, or the reason
/// why not, with the release still at hand.
pub proof fn an_install_ends_in_its_result(
    n: Updater,
    u: Updater,
    version: String,
    error: String,
    lang: Lang,
)
    ensures
        is_install_ended(n, u, Ok(version), lang) ==> n.ui is Installed && n.ui->Installed_0@
            == version@ && n.status@ == filled(
            phrase(lang, "update.installed"@),
            seq![version@],
        ),
        is_install_ended(n, u, Err(error), lang) ==> n.status@ == filled(
            phrase(lang, "update.failed"@),
            seq![error@],
        ) && (u.ui is Installing ==> n.ui == UpdateUi::Failed(u.ui->Installing_0)),
        is_install_ended(n, u, Ok(version), lang) || is_install_ended(n, u, Err(error), lang)
            ==> n.checking == u.checking,
{
}

} // verus!
