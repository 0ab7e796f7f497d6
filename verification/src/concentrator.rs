//! The gateway concentrator's configuration model: the plain-value
//! settings for board, radio chains, channels and transmit gains, and the
//! staged builder that collects them before the hardware is brought up.
//! Talking to the hardware itself — SPI, the vendor HAL and the GPIO reset
//! line — is the platform's business and happens outside this crate.

use vstd::prelude::*;

verus! {

/// Why building a concentrator configuration failed.
#[derive(Clone, Copy, Debug, PartialEq, Eq, Structural)]
pub enum BuilderError {
    /// No board configuration was given before it was needed.
    MissingBoard,
    /// `start` was asked for before `connect`.
    NotConnected,
    /// The board settings are not usable.
    InvalidBoard,
    /// The radio-chain settings are not usable.
    InvalidRxRFConf,
    /// The transmit-gain settings are not usable.
    InvalidTxGain,
    /// A chain index is out of range.
    InvalidChain,
    /// The channel settings are not usable.
    InvalidChannelConf,
}

/// A concentrator error.
#[derive(Clone, Copy, Debug, PartialEq, Eq, Structural)]
pub enum Error {
    /// The device is already opened in this process.
    Busy,
    /// The low-level driver reported a failure.
    HAL,
    /// A buffer, primarily a transmit payload, is too large.
    Size,
    /// A value could not be converted between representations.
    Data,
    /// The builder was used out of order or with missing settings.
    BuilderError(BuilderError),
}

/// Which front-end radio a setting applies to.
#[derive(Clone, Copy, Debug, PartialEq, Eq, Structural)]
pub enum FrontRadio {
    R0,
    R1,
}

impl FrontRadio {
    /// The front-end radio with the given index; there are two.
    pub fn from_index(id: u32) -> (r: Result<FrontRadio, BuilderError>)
        ensures
            r == if id == 0 {
                Ok::<FrontRadio, BuilderError>(FrontRadio::R0)
            } else if id == 1 {
                Ok::<FrontRadio, BuilderError>(FrontRadio::R1)
            } else {
                Err::<FrontRadio, BuilderError>(BuilderError::InvalidRxRFConf)
            },
    {
        match id {
            0u32 => Ok(FrontRadio::R0),
            1u32 => Ok(FrontRadio::R1),
            _ => Err(BuilderError::InvalidRxRFConf),
        }
    }
}

/// How the host talks to the concentrator board.
#[derive(Clone, Copy, Debug, PartialEq, Eq, Structural)]
pub enum ComType {
    Spi,
    Usb,
}

/// The front-end radio chip type.
#[derive(Clone, Copy, Debug, PartialEq, Eq, Structural)]
pub enum RadioType {
    SX1255,
    SX1257,
    SX1250,
}

/// Board-level settings.
#[derive(Clone, Debug, PartialEq)]
pub struct BoardConf {
    pub lorawan_public: bool,
    pub clksrc: FrontRadio,
    pub spidev_path: String,
    pub com_type: ComType,
}

/// Settings of one receive radio chain. The RSSI offset is carried in
/// hundredths of a dB, as a plain integer.
#[derive(Clone, Copy, Debug, PartialEq, Eq, Structural)]
pub struct RxRFConf {
    pub radio: FrontRadio,
    pub enable: bool,
    pub freq: u32,
    pub rssi_offset_centib: i32,
    pub type_: RadioType,
    pub tx_enable: bool,
    pub tx_notch_freq: u32,
}

/// Settings of one IF chain and modem.
#[derive(Clone, Copy, Debug, PartialEq, Eq, Structural)]
pub enum ChannelConf {
    /// A multi-data-rate channel at an IF offset of a front-end radio.
    Multirate { radio: FrontRadio, freq: i32 },
}

/// One entry of the transmit gain look-up table.
#[derive(Clone, Copy, Debug, PartialEq, Eq, Structural)]
pub struct TxGain {
    pub rf_power: i8,
    pub dig_gain: u8,
    pub pa_gain: u8,
    pub mix_gain: u8,
    pub dac_gain: u8,
    pub pwr_id: u8,
    pub offset_i: i8,
    pub offset_q: i8,
}

/// One multi-data-rate channel as it stands in a configuration document.
#[derive(Clone, Copy, Debug, PartialEq, Eq, Structural)]
pub struct MultirateLoraChannel {
    pub radio: u32,
    pub if_chain: i32,
}

/// One transmit gain entry as it stands in a configuration document.
#[derive(Clone, Copy, Debug, PartialEq, Eq, Structural)]
pub struct ConfTxGain {
    pub rf_power: i8,
    pub dig_gain: u8,
    pub pa_gain: u8,
    pub mix_gain: u8,
}

impl From<ConfTxGain> for TxGain {
    /// The configured gains, with the defaults of the fields a
    /// configuration document does not carry.
    fn from(conf: ConfTxGain) -> (r: Self) {
        TxGain {
            rf_power: conf.rf_power,
            pa_gain: conf.pa_gain,
            mix_gain: conf.mix_gain,
            dig_gain: conf.dig_gain,
            dac_gain: 3,
            pwr_id: 0,
            offset_i: 0,
            offset_q: 0,
        }
    }
}

impl vstd::std_specs::convert::FromSpecImpl<ConfTxGain> for TxGain {
    open spec fn obeys_from_spec() -> bool {
        true
    }

    open spec fn from_spec(conf: ConfTxGain) -> Self {
        TxGain {
            rf_power: conf.rf_power,
            pa_gain: conf.pa_gain,
            mix_gain: conf.mix_gain,
            dig_gain: conf.dig_gain,
            dac_gain: 3,
            pwr_id: 0,
            offset_i: 0,
            offset_q: 0,
        }
    }
}

impl ChannelConf {
    /// The channel a configuration entry describes; the radio index must
    /// name one of the two front-end radios.
    pub fn from_multirate(other: &MultirateLoraChannel) -> (r: Result<ChannelConf, BuilderError>)
        ensures
            other.radio <= 1 ==> (r matches Ok(c) && c == (ChannelConf::Multirate {
                radio: if other.radio == 0 {
                    FrontRadio::R0
                } else {
                    FrontRadio::R1
                },
                freq: other.if_chain,
            })),
            other.radio >= 2 ==> r == Err::<ChannelConf, BuilderError>(
                BuilderError::InvalidRxRFConf,
            ),
    {
        match FrontRadio::from_index(other.radio) {
            Ok(radio) => Ok(ChannelConf::Multirate { radio, freq: other.if_chain }),
            Err(e) => Err(e),
        }
    }
}

/// Proof that the concentrator has been reset since power-up; the reset
/// routine itself toggles a GPIO line and lives with the platform.
pub struct ResetToken {
    hidden: (),
}

impl ResetToken {
    /// Runs the platform's reset routine and, when it succeeds, hands out
    /// the token that `Concentrator::open` demands.
    pub fn generate<F, E>(reset_routine: F) -> (r: Result<ResetToken, E>) where
        F: FnOnce() -> Result<(), E>,

        requires
            call_requires(reset_routine, ()),
        ensures
            r matches Err(e) ==> call_ensures(reset_routine, (), Err(e)),
            r is Ok ==> exists|u: Result<(), E>| call_ensures(reset_routine, (), u) && u is Ok,
    {
        match reset_routine() {
            Ok(()) => Ok(ResetToken { hidden: () }),
            Err(e) => Err(e),
        }
    }
}

/// The builder has not been opened.
pub struct Closed {}

/// The settings collected so far, before the concentrator runs.
pub struct Builder {
    pub connected: bool,
    pub board: Option<BoardConf>,
    pub rx_rf_conf: Vec<RxRFConf>,
    pub gains: Vec<TxGain>,
    pub channel_conf: Vec<(u8, ChannelConf)>,
}

/// The concentrator is configured and running.
pub struct Running {}

/// A LoRa concentrator, staged by a type-state: closed, being configured,
/// or running.
pub struct Concentrator<State> {
    pub state: State,
}

impl Concentrator<Closed> {
    /// Opens the concentrator for configuration. Demands the reset token,
    /// so that configuration never reaches an unreset chip.
    pub fn open(token: &ResetToken) -> (r: Result<Concentrator<Builder>, Error>)
        ensures
            r matches Ok(c) && c.state.connected == false && c.state.board is None
                && c.state.rx_rf_conf@ == Seq::<RxRFConf>::empty() && c.state.gains@ == Seq::<
                TxGain,
            >::empty() && c.state.channel_conf@ == Seq::<(u8, ChannelConf)>::empty(),
    {
        let r = Concentrator {
            state: Builder {
                connected: false,
                board: None,
                rx_rf_conf: Vec::new(),
                gains: Vec::new(),
                channel_conf: Vec::new(),
            },
        };
        proof {
            assert(r.state.rx_rf_conf@ =~= Seq::<RxRFConf>::empty());
            assert(r.state.gains@ =~= Seq::<TxGain>::empty());
            assert(r.state.channel_conf@ =~= Seq::<(u8, ChannelConf)>::empty());
        }
        Ok(r)
    }
}

impl Concentrator<Builder> {
    /// Sets the gateway board configuration.
    pub fn set_config_board(self, conf: BoardConf) -> (r: Self)
        ensures
            r.state.board == Some(conf),
            r.state.connected == self.state.connected,
            r.state.rx_rf_conf@ == self.state.rx_rf_conf@,
            r.state.gains@ == self.state.gains@,
            r.state.channel_conf@ == self.state.channel_conf@,
    {
        let mut state = self.state;
        state.board = Some(conf);
        Concentrator { state }
    }

    /// Replaces the receive radio-chain configurations.
    pub fn set_rx_rfs(self, conf: Vec<RxRFConf>) -> (r: Self)
        ensures
            r.state.rx_rf_conf@ == conf@,
            r.state.connected == self.state.connected,
            r.state.board == self.state.board,
            r.state.gains@ == self.state.gains@,
            r.state.channel_conf@ == self.state.channel_conf@,
    {
        let mut state = self.state;
        state.rx_rf_conf = conf;
        Concentrator { state }
    }

    /// Adds one receive radio-chain configuration.
    pub fn add_rx_rf(self, conf: RxRFConf) -> (r: Self)
        ensures
            r.state.rx_rf_conf@ == self.state.rx_rf_conf@.push(conf),
            r.state.connected == self.state.connected,
            r.state.board == self.state.board,
            r.state.gains@ == self.state.gains@,
            r.state.channel_conf@ == self.state.channel_conf@,
    {
        let mut state = self.state;
        state.rx_rf_conf.push(conf);
        Concentrator { state }
    }

    /// Replaces the IF chain and modem configurations.
    pub fn set_config_channels(self, confs: Vec<(u8, ChannelConf)>) -> (r: Self)
        ensures
            r.state.channel_conf@ == confs@,
            r.state.connected == self.state.connected,
            r.state.board == self.state.board,
            r.state.rx_rf_conf@ == self.state.rx_rf_conf@,
            r.state.gains@ == self.state.gains@,
    {
        let mut state = self.state;
        state.channel_conf = confs;
        Concentrator { state }
    }

    /// Adds one IF chain and modem configuration.
    pub fn add_config_channel(self, chain: u8, conf: ChannelConf) -> (r: Self)
        ensures
            r.state.channel_conf@ == self.state.channel_conf@.push((chain, conf)),
            r.state.connected == self.state.connected,
            r.state.board == self.state.board,
            r.state.rx_rf_conf@ == self.state.rx_rf_conf@,
            r.state.gains@ == self.state.gains@,
    {
        let mut state = self.state;
        state.channel_conf.push((chain, conf));
        Concentrator { state }
    }

    /// Replaces the transmit gain look-up table.
    pub fn set_config_tx_gains(self, gains: Vec<TxGain>) -> (r: Self)
        ensures
            r.state.gains@ == gains@,
            r.state.connected == self.state.connected,
            r.state.board == self.state.board,
            r.state.rx_rf_conf@ == self.state.rx_rf_conf@,
            r.state.channel_conf@ == self.state.channel_conf@,
    {
        let mut state = self.state;
        state.gains = gains;
        Concentrator { state }
    }

    /// Marks the concentrator as reachable. Demands a board configuration
    /// first, since the link is brought up against the board's bus path.
    pub fn connect(self) -> (r: Result<Self, Error>)
        ensures
            self.state.board is None ==> r == Err::<Self, Error>(
                Error::BuilderError(BuilderError::MissingBoard),
            ),
            self.state.board is Some ==> (r matches Ok(c) && c.state.connected == true
                && c.state.board == self.state.board && c.state.rx_rf_conf@
                == self.state.rx_rf_conf@ && c.state.gains@ == self.state.gains@
                && c.state.channel_conf@ == self.state.channel_conf@),
    {
        if self.state.board.is_none() {
            return Err(Error::BuilderError(BuilderError::MissingBoard));
        }
        let mut state = self.state;
        state.connected = true;
        Ok(Concentrator { state })
    }

    /// Validates the collected settings and moves to the running state:
    /// the link must be connected, a board must be set, and the gain table
    /// must hold between 1 and 16 entries.
    pub fn start(self) -> (r: Result<Concentrator<Running>, Error>)
        ensures
            !self.state.connected ==> r == Err::<Concentrator<Running>, Error>(
                Error::BuilderError(BuilderError::NotConnected),
            ),
            self.state.connected && self.state.board is None ==> r == Err::<
                Concentrator<Running>,
                Error,
            >(Error::BuilderError(BuilderError::MissingBoard)),
            self.state.connected && self.state.board is Some && !(1 <= self.state.gains@.len()
                <= 16) ==> r == Err::<Concentrator<Running>, Error>(Error::Size),
            self.state.connected && self.state.board is Some && 1 <= self.state.gains@.len() <= 16
                ==> r is Ok,
    {
        if !self.state.connected {
            return Err(Error::BuilderError(BuilderError::NotConnected));
        }
        if self.state.board.is_none() {
            return Err(Error::BuilderError(BuilderError::MissingBoard));
        }
        if self.state.gains.len() == 0 || self.state.gains.len() > 16 {
            return Err(Error::Size);
        }
        Ok(Concentrator { state: Running {  } })
    }
}

} // verus!
